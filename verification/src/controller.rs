//! The per-job controller: it owns the running-job model and the job's
//! configuration, paces checkpoints against the configured interval, runs the
//! progress tick, and schedules the background cleanup so that cleanup and
//! checkpointing never overlap.

use crate::checkpoint::{CheckpointReq, CommitOperatorData, CommittingState};
use crate::model::{
    CleanupPlan, ControllerAction, ControllerError, JobState, RunningJobModel,
    RunningJobModelView, RunningMessage, TaskState, TaskStatus, TaskStatusEntry,
    TaskStatusEntryView, TaskStateView, WorkerState, WorkerStatus,
};
use crate::program::{LogicalNodeView, LogicalProgram};
use crate::types::WorkerId;
use vstd::prelude::*;

verus! {

broadcast use vstd::std_specs::hash::group_hash_axioms;

/// How often worker metrics are pulled, in microseconds.
pub const COLLECTION_RATE_MICROS: u64 = 5_000_000;

/// The stop mode carried by a stop request to the workers.
#[derive(Debug, PartialEq, Eq, Clone, Copy, Structural)]
pub enum StopMode {
    NoStop,
    Graceful,
    Checkpoint,
    Immediate,
}

/// The wire encoding of a stop mode.
pub open spec fn spec_stop_mode_code(m: StopMode) -> i32 {
    match m {
        StopMode::NoStop => 0,
        StopMode::Graceful => 1,
        StopMode::Checkpoint => 2,
        StopMode::Immediate => 3,
    }
}

/// Encode a stop mode for the wire.
pub fn stop_mode_code(m: StopMode) -> (r: i32)
    ensures
        r == spec_stop_mode_code(m),
{
    match m {
        StopMode::NoStop => 0,
        StopMode::Graceful => 1,
        StopMode::Checkpoint => 2,
        StopMode::Immediate => 3,
    }
}

/// The stop request sent to each worker.
#[derive(Debug, PartialEq, Eq, Clone, Copy, Structural)]
pub struct StopExecutionReq {
    pub stop_mode: i32,
}

/// The stop wish recorded on the job's configuration row.
#[derive(Debug, PartialEq, Eq, Clone, Copy, Structural)]
pub enum SqlStopMode {
    NoStop,
    Checkpoint,
    Graceful,
    Immediate,
}

/// How a restart was requested.
#[derive(Debug, PartialEq, Eq, Clone, Copy, Structural)]
pub enum RestartMode {
    Safe,
    Force,
}

/// The job's configuration as read from the metadata store.
#[derive(Debug)]
pub struct JobConfig {
    pub id: String,
    pub organization_id: String,
    pub checkpoint_interval_micros: u64,
    pub ttl_micros: Option<u64>,
    pub restart_nonce: i32,
    pub parallelism_overrides: Vec<(u32, u32)>,
    pub stop_mode: SqlStopMode,
    pub restart_mode: RestartMode,
}

/// Ghost shape of the job configuration.
pub struct JobConfigView {
    pub id: Seq<char>,
    pub organization_id: Seq<char>,
    pub checkpoint_interval_micros: u64,
    pub ttl_micros: Option<u64>,
    pub restart_nonce: i32,
    pub parallelism_overrides: Seq<(u32, u32)>,
    pub stop_mode: SqlStopMode,
    pub restart_mode: RestartMode,
}

impl View for JobConfig {
    type V = JobConfigView;

    open spec fn view(&self) -> JobConfigView {
        JobConfigView {
            id: self.id@,
            organization_id: self.organization_id@,
            checkpoint_interval_micros: self.checkpoint_interval_micros,
            ttl_micros: self.ttl_micros,
            restart_nonce: self.restart_nonce,
            parallelism_overrides: self.parallelism_overrides@,
            stop_mode: self.stop_mode,
            restart_mode: self.restart_mode,
        }
    }
}

/// The process-wide configuration snapshot a tick runs against.
#[derive(Debug, PartialEq, Eq, Clone, Copy, Structural)]
pub struct PipelineConfig {
    pub compaction_enabled: bool,
    pub worker_heartbeat_timeout_micros: u64,
    pub healthy_duration_micros: u64,
    pub allowed_restarts: i32,
}

/// The record of a spawned, not yet reaped, background cleanup.
#[derive(Debug, PartialEq, Eq, Clone, Copy, Structural)]
pub struct CleanupTask {
    pub new_min: u32,
}

/// How a reaped cleanup task ended.
#[derive(Debug, PartialEq, Eq, Clone, Copy, Structural)]
pub enum CleanupOutcome {
    Success,
    Failed,
}

/// What one progress tick decided.
#[derive(Debug)]
pub enum ControllerProgress {
    Continue,
    Finishing,
}

/// The per-job controller.
#[derive(Debug)]
pub struct JobController {
    pub config: JobConfig,
    pub model: RunningJobModel,
    pub cleanup_task: Option<CleanupTask>,
}

/// Ghost shape of the controller.
pub struct JobControllerView {
    pub config: JobConfigView,
    pub model: RunningJobModelView,
    pub cleanup_task: Option<CleanupTask>,
}

impl View for JobController {
    type V = JobControllerView;

    open spec fn view(&self) -> JobControllerView {
        JobControllerView { config: self.config@, model: self.model@, cleanup_task: self.cleanup_task }
    }
}

impl JobControllerView {
    /// At most one of the in-flight checkpoint coordination and the
    /// background cleanup task is present at any time.
    pub open spec fn spec_exclusive_activity(self) -> bool {
        !(self.model.checkpoint_state is Some && self.cleanup_task is Some)
    }

    /// The controller's invariant: the model invariant, the mutual exclusion
    /// of cleanup and checkpointing, and a pending cleanup target that never
    /// lowers the retention floor.
    pub open spec fn wf(self) -> bool {
        &&& self.model.wf()
        &&& self.spec_exclusive_activity()
        &&& match self.cleanup_task {
            Some(t) => self.model.min_epoch <= t.new_min <= self.model.epoch,
            None => true,
        }
    }

    /// The controller after reaping a finished cleanup task: a successful
    /// cleanup raises `min_epoch` to the task's target, a failed one only
    /// clears the task so the next tick can retry.
    pub open spec fn spec_reap_cleanup(self, outcome: Option<CleanupOutcome>) -> Self {
        match (self.cleanup_task, outcome) {
            (Some(t), Some(CleanupOutcome::Success)) => JobControllerView {
                model: RunningJobModelView { min_epoch: t.new_min, ..self.model },
                cleanup_task: None,
                ..self
            },
            (Some(t), Some(CleanupOutcome::Failed)) => JobControllerView {
                cleanup_task: None,
                ..self
            },
            _ => self,
        }
    }

    /// Whether a cleanup is due on this model state.
    pub open spec fn spec_cleanup_needed(m: RunningJobModelView) -> Option<u32> {
        if m.epoch - m.min_epoch > crate::CHECKPOINTS_TO_KEEP && m.epoch % crate::COMPACT_EVERY
            == 0 {
            Some((m.epoch - crate::CHECKPOINTS_TO_KEEP) as u32)
        } else {
            None
        }
    }

    /// The cleanup plan spawned for `new_min` on this model state.
    pub open spec fn spec_cleanup_plan(m: RunningJobModelView, new_min: u32) -> CleanupPlan {
        let effective_min: u32 = if m.min_epoch >= 1 {
            m.min_epoch
        } else {
            1
        };
        CleanupPlan {
            new_min,
            effective_min,
            cur_epoch: m.epoch,
            drop_rows_before: if effective_min >= crate::CHECKPOINT_ROWS_TO_KEEP {
                Some((effective_min - crate::CHECKPOINT_ROWS_TO_KEEP) as u32)
            } else {
                None
            },
        }
    }

    /// The model after beginning a new checkpoint epoch (the coordinator is
    /// installed separately, once the workers accepted the request).
    pub open spec fn spec_start_checkpoint_model(
        m: RunningJobModelView,
        now_micros: u64,
    ) -> RunningJobModelView {
        RunningJobModelView {
            epoch: (m.epoch + 1) as u32,
            checkpoint_spans: seq![
                crate::checkpoint::JobCheckpointSpan {
                    event: crate::checkpoint::JobCheckpointEventType::Checkpointing,
                    start_micros: now_micros,
                    finish_micros: None,
                },
                crate::checkpoint::JobCheckpointSpan {
                    event: crate::checkpoint::JobCheckpointEventType::CheckpointingOperators,
                    start_micros: now_micros,
                    finish_micros: None,
                },
            ],
            ..m
        }
    }

    /// The ids of the workers the model still sees as running.
    pub open spec fn spec_running_worker_ids(m: RunningJobModelView) -> Seq<WorkerId> {
        m.workers.filter(|w: WorkerStatus| w.state is Running).map_values(|w: WorkerStatus| w.id)
    }
}

impl JobControllerView {
    /// The metrics stage of one tick: when the refresh interval elapsed, the
    /// refresh instant resets and, unless a previous collection is still
    /// running, the running workers are polled.
    pub open spec fn spec_metrics_step(
        m: RunningJobModelView,
        now_micros: u64,
        metrics_task_running: bool,
    ) -> (RunningJobModelView, Seq<crate::model::ControllerActionView>) {
        if now_micros >= m.last_updated_metrics_micros && now_micros
            - m.last_updated_metrics_micros > COLLECTION_RATE_MICROS {
            (
                RunningJobModelView { last_updated_metrics_micros: now_micros, ..m },
                if metrics_task_running {
                    Seq::empty()
                } else {
                    seq![
                        crate::model::ControllerActionView::CollectMetrics {
                            worker_ids: Self::spec_running_worker_ids(m),
                        },
                    ]
                },
            )
        } else {
            (m, Seq::empty())
        }
    }

    /// One whole progress tick: bail out if the job failed; report finishing
    /// if a source completed; reap a finished cleanup; spawn a cleanup when
    /// due and nothing else is active; drive the in-flight checkpoint or
    /// start one when the interval elapsed and no cleanup runs; refresh
    /// metrics.
    pub open spec fn spec_progress(
        self,
        now_micros: u64,
        pipeline: PipelineConfig,
        cleanup_outcome: Option<CleanupOutcome>,
        metrics_task_running: bool,
    ) -> (JobControllerView, Seq<crate::model::ControllerActionView>, Result<
        ControllerProgress,
        ControllerError,
    >) {
        if self.model.spec_any_worker_timed_out(now_micros, pipeline.worker_heartbeat_timeout_micros)
            || self.model.spec_any_task_failed() {
            (self, Seq::empty(), Err(ControllerError::WorkerFailed))
        } else if self.model.spec_any_finished_sources() {
            (self, Seq::empty(), Ok(ControllerProgress::Finishing))
        } else {
            let c1 = self.spec_reap_cleanup(cleanup_outcome);
            let due = Self::spec_cleanup_needed(c1.model);
            let spawn = due is Some && c1.cleanup_task is None && c1.model.checkpoint_state
                is None;
            let c2 = if spawn {
                JobControllerView {
                    cleanup_task: Some(CleanupTask { new_min: due.unwrap() }),
                    ..c1
                }
            } else {
                c1
            };
            let a2: Seq<crate::model::ControllerActionView> = if spawn {
                seq![
                    crate::model::ControllerActionView::StartCleanup(
                        Self::spec_cleanup_plan(c1.model, due.unwrap()),
                    ),
                ]
            } else {
                Seq::empty()
            };
            if c2.model.checkpoint_state is Some {
                let step = c2.model.spec_finish_checkpoint(now_micros);
                let metrics = Self::spec_metrics_step(step.0, now_micros, metrics_task_running);
                (
                    JobControllerView { model: metrics.0, ..c2 },
                    a2 + step.1 + metrics.1,
                    Ok(ControllerProgress::Continue),
                )
            } else if now_micros >= c2.model.last_checkpoint_micros && now_micros
                - c2.model.last_checkpoint_micros > self.config.checkpoint_interval_micros
                && c2.cleanup_task is None {
                if c2.model.epoch >= crate::persist::MAX_DB_EPOCH {
                    (c2, a2, Err(ControllerError::EpochOverflow))
                } else {
                    let m3 = Self::spec_start_checkpoint_model(c2.model, now_micros);
                    let req = CheckpointReq {
                        epoch: m3.epoch,
                        timestamp_micros: now_micros,
                        min_epoch: m3.min_epoch,
                        then_stop: false,
                        is_commit: false,
                    };
                    let metrics = Self::spec_metrics_step(m3, now_micros, metrics_task_running);
                    (
                        JobControllerView { model: metrics.0, ..c2 },
                        a2 + seq![crate::model::ControllerActionView::StartCheckpoint(req)]
                            + metrics.1,
                        Ok(ControllerProgress::Continue),
                    )
                }
            } else {
                let metrics = Self::spec_metrics_step(c2.model, now_micros, metrics_task_running);
                (
                    JobControllerView { model: metrics.0, ..c2 },
                    a2 + metrics.1,
                    Ok(ControllerProgress::Continue),
                )
            }
        }
    }
}

impl JobController {
    /// Replace the job's configuration with a freshly read one.
    pub fn update_config(&mut self, config: JobConfig)
        ensures
            final(self)@ == (JobControllerView { config: config@, ..old(self)@ }),
    {
        self.config = config;
    }

    /// Forward one inbound worker event to the model.
    pub fn handle_message(&mut self, msg: RunningMessage, now_micros: u64) -> (r: Result<
        Vec<ControllerAction>,
        ControllerError,
    >)
        requires
            old(self)@.wf(),
        ensures
            final(self)@.config == old(self)@.config,
            final(self)@.cleanup_task == old(self)@.cleanup_task,
            match r {
                Ok(actions) => {
                    &&& !old(self)@.model.spec_message_error(msg@)
                    &&& final(self)@.model == old(self)@.model.spec_handle_message(
                        msg@,
                        now_micros,
                    ).0
                    &&& actions@ == old(self)@.model.spec_handle_message(msg@, now_micros).1
                    &&& final(self)@.wf()
                },
                Err(e) => {
                    &&& old(self)@.model.spec_message_error(msg@)
                    &&& e == ControllerError::InvariantViolation
                    &&& *final(self) == *old(self)
                },
            },
    {
        self.model.handle_message(msg, now_micros)
    }

    /// Every task of the model has finished.
    pub fn finished(&self) -> (r: bool)
        ensures
            r == self@.model.spec_all_tasks_finished(),
    {
        self.model.all_tasks_finished()
    }

    /// The parallelism the model records for the given node.
    pub fn operator_parallelism(&self, node_id: u32) -> (r: Option<usize>)
        ensures
            r == (if self@.model.operator_parallelism.contains_key(node_id) {
                Some(self@.model.operator_parallelism[node_id])
            } else {
                Option::<usize>::None
            }),
    {
        match self.model.operator_parallelism.get(&node_id) {
            Some(p) => Some(*p),
            None => None,
        }
    }

    /// The stop request for the given mode, to send to every worker.
    pub fn stop_job(&self, stop_mode: StopMode) -> (req: StopExecutionReq)
        ensures
            req.stop_mode == spec_stop_mode_code(stop_mode),
    {
        StopExecutionReq { stop_mode: stop_mode_code(stop_mode) }
    }

    /// The commit request for the in-flight commit phase: its epoch and the
    /// per-operator payloads. Asking outside the commit phase is refused.
    pub fn send_commit_messages(&self) -> (r: Result<
        (u32, Vec<CommitOperatorData>),
        ControllerError,
    >)
        ensures
            match self@.model.checkpoint_state {
                Some(crate::checkpoint::CheckpointingOrCommittingStateView::Committing(cm)) => {
                    r matches Ok((epoch, data)) && epoch == self@.model.epoch && data.deep_view()
                        == cm.commit_data
                },
                _ => r matches Err(e) && e == ControllerError::NotCommitting,
            },
    {
        match &self.model.checkpoint_state {
            Some(crate::checkpoint::CheckpointingOrCommittingState::Committing(committing)) => {
                Ok((self.model.epoch, committing.committing_data()))
            },
            _ => Err(ControllerError::NotCommitting),
        }
    }

    /// Start a checkpoint if neither a checkpoint nor a cleanup is active.
    /// Returns the request to broadcast when one was started.
    pub fn checkpoint(&mut self, now_micros: u64, then_stop: bool) -> (r: Result<
        Option<CheckpointReq>,
        ControllerError,
    >)
        requires
            old(self)@.wf(),
        ensures
            final(self)@.config == old(self)@.config,
            final(self)@.cleanup_task == old(self)@.cleanup_task,
            final(self)@.wf(),
            match r {
                Ok(Some(req)) => {
                    &&& old(self)@.model.checkpoint_state is None
                    &&& old(self)@.cleanup_task is None
                    &&& final(self)@.model == JobControllerView::spec_start_checkpoint_model(
                        old(self)@.model,
                        now_micros,
                    )
                    &&& req == (CheckpointReq {
                        epoch: (old(self)@.model.epoch + 1) as u32,
                        timestamp_micros: now_micros,
                        min_epoch: old(self)@.model.min_epoch,
                        then_stop,
                        is_commit: false,
                    })
                },
                Ok(None) => {
                    &&& (old(self)@.model.checkpoint_state is Some || old(self)@.cleanup_task
                        is Some)
                    &&& *final(self) == *old(self)
                },
                Err(e) => {
                    &&& e == ControllerError::EpochOverflow
                    &&& old(self)@.model.checkpoint_state is None
                    &&& old(self)@.cleanup_task is None
                    &&& old(self)@.model.epoch >= crate::persist::MAX_DB_EPOCH
                    &&& *final(self) == *old(self)
                },
            },
    {
        if self.model.checkpoint_state.is_none() && self.cleanup_task.is_none() {
            match self.model.start_checkpoint(now_micros, then_stop) {
                Ok(req) => Ok(Some(req)),
                Err(e) => Err(e),
            }
        } else {
            Ok(None)
        }
    }

    /// Drive the in-flight checkpoint if one exists, and report whether no
    /// checkpoint is in flight afterwards.
    pub fn checkpoint_finished(&mut self, now_micros: u64) -> (r: (bool, Vec<ControllerAction>))
        requires
            old(self)@.wf(),
        ensures
            final(self)@.config == old(self)@.config,
            final(self)@.cleanup_task == old(self)@.cleanup_task,
            final(self)@.wf(),
            old(self)@.model.checkpoint_state is Some ==> {
                &&& final(self)@.model == old(self)@.model.spec_finish_checkpoint(now_micros).0
                &&& r.1.deep_view() == old(self)@.model.spec_finish_checkpoint(now_micros).1
            },
            old(self)@.model.checkpoint_state is None ==> *final(self) == *old(self)
                && r.1@.len() == 0,
            r.0 == (final(self)@.model.checkpoint_state is None),
    {
        let actions = if self.model.checkpoint_state.is_some() {
            self.model.finish_checkpoint_if_done(now_micros)
        } else {
            Vec::new()
        };
        (self.model.checkpoint_state.is_none(), actions)
    }

    /// Record that a cleanup task was spawned for `new_min` and lay out its
    /// plan.
    pub fn start_cleanup(&mut self, new_min: u32) -> (plan: CleanupPlan)
        requires
            old(self)@.wf(),
            old(self)@.cleanup_task is None,
            old(self)@.model.min_epoch <= new_min <= old(self)@.model.epoch,
        ensures
            final(self)@ == (JobControllerView {
                cleanup_task: Some(CleanupTask { new_min }),
                ..old(self)@
            }),
            plan == JobControllerView::spec_cleanup_plan(old(self)@.model, new_min),
    {
        let effective_min = if self.model.min_epoch >= 1 {
            self.model.min_epoch
        } else {
            1
        };
        self.cleanup_task = Some(CleanupTask { new_min });
        CleanupPlan {
            new_min,
            effective_min,
            cur_epoch: self.model.epoch,
            drop_rows_before: if effective_min >= crate::CHECKPOINT_ROWS_TO_KEEP {
                Some(effective_min - crate::CHECKPOINT_ROWS_TO_KEEP)
            } else {
                None
            },
        }
    }

    /// One progress tick.
    pub fn progress(
        &mut self,
        now_micros: u64,
        pipeline: &PipelineConfig,
        cleanup_outcome: Option<CleanupOutcome>,
        metrics_task_running: bool,
    ) -> (r: Result<(ControllerProgress, Vec<ControllerAction>), ControllerError>)
        requires
            old(self)@.wf(),
        ensures
            final(self)@.wf(),
            final(self)@.model.min_epoch >= old(self)@.model.min_epoch,
            final(self)@.config == old(self)@.config,
            final(self)@ == old(self)@.spec_progress(
                now_micros,
                *pipeline,
                cleanup_outcome,
                metrics_task_running,
            ).0,
            match r {
                Ok((p, actions)) => {
                    &&& old(self)@.spec_progress(
                        now_micros,
                        *pipeline,
                        cleanup_outcome,
                        metrics_task_running,
                    ).2 == Ok::<ControllerProgress, ControllerError>(p)
                    &&& actions.deep_view() == old(self)@.spec_progress(
                        now_micros,
                        *pipeline,
                        cleanup_outcome,
                        metrics_task_running,
                    ).1
                },
                Err(e) => old(self)@.spec_progress(
                    now_micros,
                    *pipeline,
                    cleanup_outcome,
                    metrics_task_running,
                ).2 == Err::<ControllerProgress, ControllerError>(e),
            },
    {
        let ghost pre = self@;
        let mut actions: Vec<ControllerAction> = Vec::new();
        if self.model.failed(now_micros, pipeline.worker_heartbeat_timeout_micros) {
            return Err(ControllerError::WorkerFailed);
        }
        if self.model.any_finished_sources() {
            return Ok((ControllerProgress::Finishing, actions));
        }
        if self.cleanup_task.is_some() {
            match cleanup_outcome {
                Some(CleanupOutcome::Success) => {
                    let t = self.cleanup_task.take().unwrap();
                    self.model.min_epoch = t.new_min;
                },
                Some(CleanupOutcome::Failed) => {
                    self.cleanup_task = None;
                },
                None => {},
            }
        }
        let ghost c1 = pre.spec_reap_cleanup(cleanup_outcome);
        proof {
            assert(self@ == c1);
        }
        match self.model.cleanup_needed() {
            Some(new_min) => {
                if self.cleanup_task.is_none() && self.model.checkpoint_state.is_none() {
                    let plan = self.start_cleanup(new_min);
                    actions.push(ControllerAction::StartCleanup(plan));
                }
            },
            None => {},
        }
        let ghost c2 = self@;
        let ghost a2 = actions.deep_view();
        if self.model.checkpoint_state.is_some() {
            let mut more = self.model.finish_checkpoint_if_done(now_micros);
            let ghost more_v = more.deep_view();
            actions.append(&mut more);
            proof {
                assert(actions.deep_view() =~= a2 + more_v);
            }
        } else {
            let elapsed_over = now_micros >= self.model.last_checkpoint_micros && now_micros
                - self.model.last_checkpoint_micros > self.config.checkpoint_interval_micros;
            if elapsed_over && self.cleanup_task.is_none() {
                match self.model.start_checkpoint(now_micros, false) {
                    Ok(req) => {
                        actions.push(ControllerAction::StartCheckpoint(req));
                        proof {
                            assert(actions.deep_view() =~= a2 + seq![
                                crate::model::ControllerActionView::StartCheckpoint(req),
                            ]);
                        }
                    },
                    Err(e) => {
                        return Err(e);
                    },
                }
            }
        }
        let ghost c3_model = self@.model;
        let ghost a3 = actions.deep_view();
        if now_micros >= self.model.last_updated_metrics_micros && now_micros
            - self.model.last_updated_metrics_micros > COLLECTION_RATE_MICROS {
            if !metrics_task_running {
                let worker_ids = self.running_worker_ids();
                actions.push(ControllerAction::CollectMetrics { worker_ids });
                proof {
                    assert(actions.deep_view() =~= a3 + seq![
                        crate::model::ControllerActionView::CollectMetrics {
                            worker_ids: JobControllerView::spec_running_worker_ids(c3_model),
                        },
                    ]);
                }
            }
            self.model.last_updated_metrics_micros = now_micros;
        }
        proof {
            let target = pre.spec_progress(now_micros, *pipeline, cleanup_outcome, metrics_task_running);
            assert(self@ == target.0);
            assert(actions.deep_view() =~= target.1);
        }
        Ok((ControllerProgress::Continue, actions))
    }

    /// The ids of the workers the model still sees as running.
    fn running_worker_ids(&self) -> (r: Vec<WorkerId>)
        ensures
            r@ == JobControllerView::spec_running_worker_ids(self@.model),
    {
        let mut r: Vec<WorkerId> = Vec::new();
        let n = self.model.workers.len();
        for i in 0..n
            invariant
                n == self.model.workers.len(),
                r@ == self.model.workers@.take(i as int).filter(
                    |w: WorkerStatus| w.state is Running,
                ).map_values(|w: WorkerStatus| w.id),
        {
            proof {
                assert(self.model.workers@.take(i + 1).drop_last() == self.model.workers@.take(
                    i as int,
                ));
                reveal(Seq::filter);
            }
            if matches!(self.model.workers[i].state, WorkerState::Running) {
                r.push(self.model.workers[i].id);
            }
            proof {
                assert(self.model.workers@.take(i + 1).last() == self.model.workers@[i as int]);
            }
        }
        proof {
            assert(self.model.workers@.take(n as int) == self.model.workers@);
        }
        r
    }
}

/// The fresh task table of one node: one running entry per subtask.
pub open spec fn spec_node_tasks(n: LogicalNodeView) -> Seq<TaskStatusEntryView> {
    Seq::new(
        n.parallelism as nat,
        |k: int| TaskStatusEntryView {
            node_id: n.node_id,
            subtask_index: k as u32,
            state: TaskStateView::Running,
        },
    )
}

/// The fresh task table of the whole program, in graph order.
pub open spec fn spec_initial_tasks(nodes: Seq<LogicalNodeView>) -> Seq<TaskStatusEntryView>
    decreases nodes.len(),
{
    if nodes.len() == 0 {
        Seq::empty()
    } else {
        spec_initial_tasks(nodes.drop_last()) + spec_node_tasks(nodes.last())
    }
}

/// Every entry of the fresh task table is running, belongs to a node of the
/// program, and no two entries name the same subtask.
proof fn lemma_initial_tasks_wf(nodes: Seq<LogicalNodeView>)
    requires
        forall|i: int, j: int| 0 <= i < j < nodes.len() ==> nodes[i].node_id != nodes[j].node_id,
    ensures
        forall|i: int|
            0 <= i < spec_initial_tasks(nodes).len() ==> (#[trigger] spec_initial_tasks(nodes)[i]).state
                is Running && exists|k: int|
                0 <= k < nodes.len() && (#[trigger] nodes[k]).node_id == spec_initial_tasks(
                    nodes,
                )[i].node_id,
        forall|i: int, j: int|
            0 <= i < j < spec_initial_tasks(nodes).len() ==> !((#[trigger] spec_initial_tasks(
                nodes,
            )[i]).node_id == (#[trigger] spec_initial_tasks(nodes)[j]).node_id
                && spec_initial_tasks(nodes)[i].subtask_index == spec_initial_tasks(
                nodes,
            )[j].subtask_index),
    decreases nodes.len(),
{
    if nodes.len() > 0 {
        let prefix = nodes.drop_last();
        lemma_initial_tasks_wf(prefix);
        let tasks = spec_initial_tasks(nodes);
        let rec = spec_initial_tasks(prefix);
        let node_part = spec_node_tasks(nodes.last());
        assert forall|i: int| 0 <= i < tasks.len() implies (#[trigger] tasks[i]).state is Running
            && exists|k: int|
            0 <= k < nodes.len() && (#[trigger] nodes[k]).node_id == tasks[i].node_id by {
            if i < rec.len() {
                assert(tasks[i] == rec[i]);
                let k = choose|k: int|
                    0 <= k < prefix.len() && (#[trigger] prefix[k]).node_id == rec[i].node_id;
                assert(nodes[k] == prefix[k]);
            } else {
                assert(tasks[i] == node_part[i - rec.len()]);
                assert(nodes[nodes.len() - 1] == nodes.last());
            }
        }
        assert forall|i: int, j: int| 0 <= i < j < tasks.len() implies !((
        #[trigger] tasks[i]).node_id == (#[trigger] tasks[j]).node_id && tasks[i].subtask_index
            == tasks[j].subtask_index) by {
            if j < rec.len() {
                assert(tasks[i] == rec[i] && tasks[j] == rec[j]);
            } else if i >= rec.len() {
                assert(tasks[i] == node_part[i - rec.len()]);
                assert(tasks[j] == node_part[j - rec.len()]);
            } else {
                assert(tasks[i] == rec[i]);
                assert(tasks[j] == node_part[j - rec.len()]);
                assert(tasks[j].node_id == nodes.last().node_id);
                let k = choose|k: int|
                    0 <= k < prefix.len() && (#[trigger] prefix[k]).node_id == rec[i].node_id;
                assert(nodes[k] == prefix[k]);
                assert(nodes[k].node_id != nodes.last().node_id);
            }
        }
    }
}

/// Relies on `String::push` of std: the given character is appended to the
/// end of the string.
pub assume_specification[ String::push ](s: &mut String, ch: char)
    ensures
        final(s)@ == old(s)@.push(ch),
;

/// Relies on `rand::random_range` over `0..bound`: the result is uniformly
/// drawn from that range, so in particular below `bound`.
#[verifier::external_body]
fn random_below(bound: u64) -> (r: u64)
    requires
        bound >= 1,
    ensures
        r < bound,
{
    rand::random_range(0..bound)
}

/// Relies on `rand::random`: a random 128-bit value, of which nothing is
/// promised.
#[verifier::external_body]
fn random_u128() -> (r: u128) {
    rand::random::<u128>()
}

/// Generate an opaque, URL-safe checkpoint identifier: a fixed prefix
/// followed by twenty-one characters drawn from digits and lower-case
/// letters.
pub fn generate_checkpoint_id() -> (r: String)
    ensures
        r@.len() == 24,
        r@.subrange(0, 3) == "cp-"@,
        forall|i: int| 3 <= i < 24 ==> '0' <= #[trigger] r@[i] <= '9' || 'a' <= r@[i] <= 'z',
{
    let mut r = String::from_str("cp-");
    proof {
        reveal_strlit("cp-");
    }
    let mut x = random_u128();
    let mut k: u32 = 0;
    while k < 21
        invariant
            k <= 21,
            r@.len() == 3 + k,
            r@.subrange(0, 3) == "cp-"@,
            forall|i: int| 3 <= i < 3 + k ==> '0' <= #[trigger] r@[i] <= '9' || 'a' <= r@[i] <= 'z',
        decreases 21 - k,
    {
        let digit = (x % 36) as u8;
        let c = if digit < 10 {
            (48u8 + digit) as char
        } else {
            (97u8 + (digit - 10)) as char
        };
        proof {
            assert('0' <= c <= '9' || 'a' <= c <= 'z');
        }
        let ghost before = r@;
        r.push(c);
        proof {
            assert(r@.subrange(0, 3) =~= before.subrange(0, 3));
        }
        x = x / 36;
        k = k + 1;
    }
    r
}

impl JobController {
    /// A controller for a freshly admitted job: every worker connected just
    /// now, one running task per subtask of the program, and the first
    /// checkpoint delayed by a random share of the interval so that jobs
    /// sharing one controller do not checkpoint in lockstep.
    ///
    /// A job recovering into its commit phase resumes with that phase
    /// installed.
    pub fn new(
        config: JobConfig,
        program: LogicalProgram,
        epoch: u32,
        min_epoch: u32,
        worker_ids: Vec<WorkerId>,
        commit_state: Option<CommittingState>,
        now_micros: u64,
    ) -> (r: Self)
        requires
            min_epoch <= epoch,
            config@.checkpoint_interval_micros >= 1000,
            now_micros + config@.checkpoint_interval_micros <= u64::MAX,
            program.wf(),
            RunningJobModelView::spec_program_ops_unique(program@),
            forall|i: int, j: int|
                0 <= i < j < worker_ids@.len() ==> worker_ids@[i] != worker_ids@[j],
            match commit_state {
                Some(cm) => cm@.wf(),
                None => true,
            },
        ensures
            r@.config == config@,
            r@.cleanup_task is None,
            r@.model.job_id == config@.id,
            r@.model.state is Running,
            r@.model.program == program@,
            r@.model.epoch == epoch,
            r@.model.min_epoch == min_epoch,
            r@.model.checkpoint_state == match commit_state {
                Some(cm) => Some(
                    crate::checkpoint::CheckpointingOrCommittingStateView::Committing(cm@),
                ),
                None => None::<crate::checkpoint::CheckpointingOrCommittingStateView>,
            },
            now_micros <= r@.model.last_checkpoint_micros < now_micros
                + config@.checkpoint_interval_micros,
            r@.model.workers == Seq::new(
                worker_ids@.len(),
                |i: int| WorkerStatus {
                    id: worker_ids@[i],
                    last_heartbeat_micros: now_micros,
                    state: WorkerState::Running,
                },
            ),
            r@.model.tasks == spec_initial_tasks(program@),
            r@.model.last_updated_metrics_micros == now_micros,
            r@.model.checkpoint_spans == Seq::<crate::checkpoint::JobCheckpointSpan>::empty(),
            r@.wf(),
    {
        let interval_millis = config.checkpoint_interval_micros / 1000;
        let stagger_micros = random_below(interval_millis) * 1000;
        proof {
            assert(stagger_micros < config@.checkpoint_interval_micros) by {
                assert(interval_millis * 1000 <= config@.checkpoint_interval_micros) by (nonlinear_arith)
                    requires
                        interval_millis == config@.checkpoint_interval_micros as int / 1000,
                ;
                assert(stagger_micros <= (interval_millis - 1) * 1000) by (nonlinear_arith)
                    requires
                        stagger_micros == (stagger_micros / 1000) * 1000,
                        stagger_micros / 1000 < interval_millis,
                ;
            }
        }
        let last_checkpoint_micros = now_micros + stagger_micros;
        let mut workers: Vec<WorkerStatus> = Vec::new();
        let n = worker_ids.len();
        for i in 0..n
            invariant
                n == worker_ids.len(),
                workers@ =~= Seq::new(
                    i as nat,
                    |x: int| WorkerStatus {
                        id: worker_ids@[x],
                        last_heartbeat_micros: now_micros,
                        state: WorkerState::Running,
                    },
                ),
        {
            workers.push(
                WorkerStatus {
                    id: worker_ids[i],
                    last_heartbeat_micros: now_micros,
                    state: WorkerState::Running,
                },
            );
            proof {
                assert(workers@ =~= Seq::new(
                    (i + 1) as nat,
                    |x: int| WorkerStatus {
                        id: worker_ids@[x],
                        last_heartbeat_micros: now_micros,
                        state: WorkerState::Running,
                    },
                ));
            }
        }
        let mut tasks: Vec<TaskStatusEntry> = Vec::new();
        let m = program.nodes.len();
        for i in 0..m
            invariant
                m == program.nodes.len(),
                tasks.deep_view() == spec_initial_tasks(program@.take(i as int)),
        {
            let node = &program.nodes[i];
            let parallelism = node.parallelism;
            let node_id = node.node_id;
            let ghost tasks_before = tasks.deep_view();
            let mut k: u32 = 0;
            while k < parallelism
                invariant
                    0 <= i < program.nodes@.len(),
                    node_id == program@[i as int].node_id,
                    parallelism == program@[i as int].parallelism,
                    k <= parallelism,
                    tasks.deep_view() =~= tasks_before + spec_node_tasks(program@[i as int]).take(
                        k as int,
                    ),
                decreases parallelism - k,
            {
                let entry = TaskStatusEntry {
                    node_id,
                    subtask_index: k,
                    status: TaskStatus { state: TaskState::Running },
                };
                let ghost prev = tasks@;
                let ghost prev_deep = tasks.deep_view();
                tasks.push(entry);
                k = k + 1;
                proof {
                    crate::lemma_vec_deep_view_push(prev, prev_deep, tasks, entry);
                    assert(entry@ == spec_node_tasks(program@[i as int])[k - 1]);
                    assert(spec_node_tasks(program@[i as int]).take(k as int)
                        =~= spec_node_tasks(program@[i as int]).take(k - 1).push(
                        spec_node_tasks(program@[i as int])[k - 1],
                    ));
                    assert(tasks.deep_view() =~= tasks_before + spec_node_tasks(
                        program@[i as int],
                    ).take(k as int));
                }
            }
            proof {
                assert(spec_node_tasks(program@[i as int]).take(parallelism as int)
                    =~= spec_node_tasks(program@[i as int]));
                assert(program@.take(i + 1).drop_last() =~= program@.take(i as int));
                assert(program@.take(i + 1).last() == program@[i as int]);
                assert(tasks.deep_view() =~= spec_initial_tasks(program@.take(i + 1)));
            }
        }
        proof {
            assert(program@.take(m as int) =~= program@);
        }
        let operator_parallelism = program.tasks_per_node();
        let checkpoint_state = match commit_state {
            Some(cm) => Some(crate::checkpoint::CheckpointingOrCommittingState::Committing(cm)),
            None => None,
        };
        let model = RunningJobModel {
            job_id: config.id.clone(),
            state: JobState::Running,
            program,
            checkpoint_state,
            epoch,
            min_epoch,
            last_checkpoint_micros,
            workers,
            tasks,
            operator_parallelism,
            last_updated_metrics_micros: now_micros,
            checkpoint_spans: Vec::new(),
        };
        let r = JobController { config, model, cleanup_task: None };
        proof {
            assert(r@.model.checkpoint_spans =~= Seq::<
                crate::checkpoint::JobCheckpointSpan,
            >::empty());
            lemma_initial_tasks_wf(r@.model.program);
            assert(r@.model.wf());
        }
        r
    }
}

/// One message of the job's control channel.
#[derive(Debug)]
pub enum JobMessage {
    RunningMessage(RunningMessage),
    ConfigUpdate(JobConfig),
}

impl JobController {
    /// One step of draining the job to completion: a worker event is handled
    /// as usual, and a configuration update that wishes an immediate stop
    /// yields the stop request to broadcast; other updates are ignored while
    /// draining. The caller repeats until `finished` reports true.
    pub fn wait_for_finish_step(&mut self, msg: JobMessage, now_micros: u64) -> (r: Result<
        (Vec<ControllerAction>, Option<StopExecutionReq>),
        ControllerError,
    >)
        requires
            old(self)@.wf(),
        ensures
            final(self)@.wf(),
            final(self)@.config == old(self)@.config,
            final(self)@.cleanup_task == old(self)@.cleanup_task,
            match msg {
                JobMessage::RunningMessage(m) => match r {
                    Ok((actions, stop)) => {
                        &&& !old(self)@.model.spec_message_error(m@)
                        &&& final(self)@.model == old(self)@.model.spec_handle_message(
                            m@,
                            now_micros,
                        ).0
                        &&& actions@ == old(self)@.model.spec_handle_message(m@, now_micros).1
                        &&& stop is None
                    },
                    Err(e) => {
                        &&& old(self)@.model.spec_message_error(m@)
                        &&& e == ControllerError::InvariantViolation
                        &&& *final(self) == *old(self)
                    },
                },
                JobMessage::ConfigUpdate(c) => {
                    &&& *final(self) == *old(self)
                    &&& r matches Ok((actions, stop)) && actions@.len() == 0 && stop == (
                    if c@.stop_mode is Immediate {
                        Some(
                            StopExecutionReq {
                                stop_mode: spec_stop_mode_code(StopMode::Immediate),
                            },
                        )
                    } else {
                        None::<StopExecutionReq>
                    })
                },
            },
    {
        match msg {
            JobMessage::RunningMessage(m) => {
                match self.model.handle_message(m, now_micros) {
                    Ok(actions) => Ok((actions, None)),
                    Err(e) => Err(e),
                }
            },
            JobMessage::ConfigUpdate(c) => {
                if matches!(c.stop_mode, SqlStopMode::Immediate) {
                    Ok((Vec::new(), Some(self.stop_job(StopMode::Immediate))))
                } else {
                    Ok((Vec::new(), None))
                }
            },
        }
    }
}

} // verus!
