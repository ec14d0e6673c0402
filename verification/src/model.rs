//! The in-memory model of one running job: its workers, its tasks, the
//! current epoch and the in-flight checkpoint coordination. Every mutation is
//! driven by one inbound event or one controller decision; outside work (a
//! remote call, a store write) is returned as an action for the caller to
//! perform, so that each transition is a function of the state, the event and
//! the clock.

use crate::checkpoint::{
    CheckpointReq, CheckpointState, CheckpointStateView, CheckpointingOrCommittingState,
    CheckpointingOrCommittingStateView, CommitOperatorData, JobCheckpointEventType,
    JobCheckpointSpan, TaskCheckpointEvent, TaskCheckpointEventType, TaskCheckpointEventView,
    TaskCheckpointFinished, TaskCheckpointFinishedView,
};
use crate::find_first;
use crate::persist::{CheckpointRowUpdate, CheckpointRowUpdateView, CommitCheckpointRow, CommitProgressRow, CoordinationRowUpdate, DbCheckpointState, NewCheckpointRow};
use crate::program::{LogicalNodeView, LogicalProgram};
use crate::types::WorkerId;
use vstd::prelude::*;

verus! {

/// Connection state of one worker.
#[derive(Debug, PartialEq, Eq, Clone, Copy, Structural)]
pub enum WorkerState {
    Running,
    Stopped,
}

/// Execution state of one subtask.
#[derive(Debug, PartialEq, Eq, Clone)]
pub enum TaskState {
    Running,
    Finished,
    Failed(String),
}

/// Ghost shape of a subtask's state.
pub enum TaskStateView {
    Running,
    Finished,
    Failed(Seq<char>),
}

impl View for TaskState {
    type V = TaskStateView;

    open spec fn view(&self) -> TaskStateView {
        match self {
            TaskState::Running => TaskStateView::Running,
            TaskState::Finished => TaskStateView::Finished,
            TaskState::Failed(reason) => TaskStateView::Failed(reason@),
        }
    }
}

/// The tracked state of one subtask.
#[derive(Debug, Clone)]
pub struct TaskStatus {
    pub state: TaskState,
}

/// One row of the task table: the subtask named by `(node_id,
/// subtask_index)` and its current status.
#[derive(Debug, Clone)]
pub struct TaskStatusEntry {
    pub node_id: u32,
    pub subtask_index: u32,
    pub status: TaskStatus,
}

/// Ghost shape of one task-table row.
pub struct TaskStatusEntryView {
    pub node_id: u32,
    pub subtask_index: u32,
    pub state: TaskStateView,
}

impl View for TaskStatusEntry {
    type V = TaskStatusEntryView;

    open spec fn view(&self) -> TaskStatusEntryView {
        TaskStatusEntryView {
            node_id: self.node_id,
            subtask_index: self.subtask_index,
            state: self.status.state@,
        }
    }
}

impl DeepView for TaskStatusEntry {
    type V = TaskStatusEntryView;

    open spec fn deep_view(&self) -> TaskStatusEntryView {
        self.view()
    }
}

/// Whether the whole job is still running or has been wound down.
#[derive(Debug, PartialEq, Eq, Clone, Copy, Structural)]
pub enum JobState {
    Running,
    Stopped,
}

/// The model's record of one worker.
#[derive(Debug, PartialEq, Eq, Clone, Copy, Structural)]
pub struct WorkerStatus {
    pub id: WorkerId,
    pub last_heartbeat_micros: u64,
    pub state: WorkerState,
}

impl WorkerStatus {
    /// Whether the worker's heartbeat is older than the allowed age.
    pub fn heartbeat_timeout(&self, now_micros: u64, timeout_micros: u64) -> (r: bool)
        ensures
            r == (now_micros - self.last_heartbeat_micros > timeout_micros && now_micros
                >= self.last_heartbeat_micros),
    {
        if now_micros >= self.last_heartbeat_micros {
            now_micros - self.last_heartbeat_micros > timeout_micros
        } else {
            false
        }
    }
}

/// Errors the model surfaces to the state machine.
#[derive(Debug, PartialEq, Eq, Clone, Copy, Structural)]
pub enum ControllerError {
    /// A protocol step arrived that the coordination state cannot accept;
    /// the state machine cannot safely continue.
    InvariantViolation,
    /// The next epoch would not fit the metadata store's signed column.
    EpochOverflow,
    /// A worker missed its heartbeat deadline or a task failed.
    WorkerFailed,
    /// A commit was requested while no commit phase is active.
    NotCommitting,
}

/// The parameters of a cleanup run handed to the background task.
#[derive(Debug, PartialEq, Eq, Clone, Copy, Structural)]
pub struct CleanupPlan {
    /// The epoch that becomes the new `min_epoch` when cleanup succeeds.
    pub new_min: u32,
    /// The current `min_epoch`, raised to at least one.
    pub effective_min: u32,
    /// The epoch whose metadata the cleanup loads.
    pub cur_epoch: u32,
    /// Rows with an epoch below this are dropped, when set.
    pub drop_rows_before: Option<u32>,
}

/// Outside work the model asks its caller to perform, in order.
#[derive(Debug)]
pub enum ControllerAction {
    /// Send the job-finished call to the given worker.
    SendJobFinished { worker_id: WorkerId },
    /// Persist the in-flight coordination snapshot, whichever phase runs
    /// (see `update_db`).
    PersistCoordination,
    /// Run state compaction (see `compact_state`).
    CompactState,
    /// Write the aggregated checkpoint metadata through the state backend.
    WriteMetadata,
    /// Write the given checkpoint row update to the metadata store.
    PersistCheckpoint(CheckpointRowUpdate),
    /// Write the given commit-closing update to the metadata store.
    PersistCommit(crate::persist::CommitCheckpointRow),
    /// Send a commit request with the given payloads to every worker.
    SendCommit { epoch: u32, committing_data: Vec<CommitOperatorData> },
    /// Notify metadata-store subscribers that the job's rows changed.
    NotifyDb,
    /// Send the given checkpoint request to every worker, then install the
    /// coordinator (see `install_checkpoint`).
    StartCheckpoint(CheckpointReq),
    /// Spawn the background cleanup task with the given plan.
    StartCleanup(CleanupPlan),
    /// Collect metrics from the given workers.
    CollectMetrics { worker_ids: Vec<WorkerId> },
}


/// Ghost shape of one requested action.
pub enum ControllerActionView {
    SendJobFinished { worker_id: WorkerId },
    PersistCoordination,
    CompactState,
    WriteMetadata,
    PersistCheckpoint(crate::persist::CheckpointRowUpdateView),
    PersistCommit(crate::persist::CommitCheckpointRowView),
    SendCommit { epoch: u32, committing_data: Seq<crate::checkpoint::CommitOperatorDataView> },
    NotifyDb,
    StartCheckpoint(CheckpointReq),
    StartCleanup(CleanupPlan),
    CollectMetrics { worker_ids: Seq<WorkerId> },
}

impl View for ControllerAction {
    type V = ControllerActionView;

    open spec fn view(&self) -> ControllerActionView {
        match self {
            ControllerAction::SendJobFinished { worker_id } => {
                ControllerActionView::SendJobFinished { worker_id: *worker_id }
            },
            ControllerAction::PersistCoordination => ControllerActionView::PersistCoordination,
            ControllerAction::CompactState => ControllerActionView::CompactState,
            ControllerAction::WriteMetadata => ControllerActionView::WriteMetadata,
            ControllerAction::PersistCheckpoint(u) => ControllerActionView::PersistCheckpoint(u@),
            ControllerAction::PersistCommit(u) => ControllerActionView::PersistCommit(u@),
            ControllerAction::SendCommit { epoch, committing_data } => {
                ControllerActionView::SendCommit {
                    epoch: *epoch,
                    committing_data: committing_data.deep_view(),
                }
            },
            ControllerAction::NotifyDb => ControllerActionView::NotifyDb,
            ControllerAction::StartCheckpoint(req) => ControllerActionView::StartCheckpoint(*req),
            ControllerAction::StartCleanup(plan) => ControllerActionView::StartCleanup(*plan),
            ControllerAction::CollectMetrics { worker_ids } => {
                ControllerActionView::CollectMetrics { worker_ids: worker_ids@ }
            },
        }
    }
}

impl DeepView for ControllerAction {
    type V = ControllerActionView;

    open spec fn deep_view(&self) -> ControllerActionView {
        self.view()
    }
}

/// One inbound event from a worker.
#[derive(Debug)]
pub enum RunningMessage {
    TaskCheckpointEvent(TaskCheckpointEvent),
    TaskCheckpointFinished(TaskCheckpointFinished),
    TaskFinished { worker_id: WorkerId, time_micros: u64, node_id: u32, subtask_index: u32 },
    TaskFailed {
        worker_id: WorkerId,
        time_micros: u64,
        node_id: u32,
        subtask_index: u32,
        reason: String,
    },
    WorkerHeartbeat { worker_id: WorkerId, time_micros: u64 },
    WorkerFinished { worker_id: WorkerId },
}

/// Ghost shape of one inbound event.
pub enum RunningMessageView {
    TaskCheckpointEvent(TaskCheckpointEventView),
    TaskCheckpointFinished(TaskCheckpointFinishedView),
    TaskFinished { worker_id: WorkerId, time_micros: u64, node_id: u32, subtask_index: u32 },
    TaskFailed {
        worker_id: WorkerId,
        time_micros: u64,
        node_id: u32,
        subtask_index: u32,
        reason: Seq<char>,
    },
    WorkerHeartbeat { worker_id: WorkerId, time_micros: u64 },
    WorkerFinished { worker_id: WorkerId },
}

impl View for RunningMessage {
    type V = RunningMessageView;

    open spec fn view(&self) -> RunningMessageView {
        match self {
            RunningMessage::TaskCheckpointEvent(c) => RunningMessageView::TaskCheckpointEvent(c@),
            RunningMessage::TaskCheckpointFinished(f) => {
                RunningMessageView::TaskCheckpointFinished(f@)
            },
            RunningMessage::TaskFinished { worker_id, time_micros, node_id, subtask_index } => {
                RunningMessageView::TaskFinished {
                    worker_id: *worker_id,
                    time_micros: *time_micros,
                    node_id: *node_id,
                    subtask_index: *subtask_index,
                }
            },
            RunningMessage::TaskFailed {
                worker_id,
                time_micros,
                node_id,
                subtask_index,
                reason,
            } => {
                RunningMessageView::TaskFailed {
                    worker_id: *worker_id,
                    time_micros: *time_micros,
                    node_id: *node_id,
                    subtask_index: *subtask_index,
                    reason: reason@,
                }
            },
            RunningMessage::WorkerHeartbeat { worker_id, time_micros } => {
                RunningMessageView::WorkerHeartbeat {
                    worker_id: *worker_id,
                    time_micros: *time_micros,
                }
            },
            RunningMessage::WorkerFinished { worker_id } => {
                RunningMessageView::WorkerFinished { worker_id: *worker_id }
            },
        }
    }
}

/// The in-memory model of one running job.
#[derive(Debug)]
pub struct RunningJobModel {
    pub job_id: String,
    pub state: JobState,
    pub program: LogicalProgram,
    pub checkpoint_state: Option<CheckpointingOrCommittingState>,
    pub epoch: u32,
    pub min_epoch: u32,
    pub last_checkpoint_micros: u64,
    pub workers: Vec<WorkerStatus>,
    pub tasks: Vec<TaskStatusEntry>,
    pub operator_parallelism: std::collections::HashMap<u32, usize>,
    pub last_updated_metrics_micros: u64,
    pub checkpoint_spans: Vec<JobCheckpointSpan>,
}

/// Ghost shape of the running-job model.
pub struct RunningJobModelView {
    pub job_id: Seq<char>,
    pub state: JobState,
    pub program: Seq<LogicalNodeView>,
    pub checkpoint_state: Option<CheckpointingOrCommittingStateView>,
    pub epoch: u32,
    pub min_epoch: u32,
    pub last_checkpoint_micros: u64,
    pub workers: Seq<WorkerStatus>,
    pub tasks: Seq<TaskStatusEntryView>,
    pub operator_parallelism: Map<u32, usize>,
    pub last_updated_metrics_micros: u64,
    pub checkpoint_spans: Seq<JobCheckpointSpan>,
}

impl View for RunningJobModel {
    type V = RunningJobModelView;

    open spec fn view(&self) -> RunningJobModelView {
        RunningJobModelView {
            job_id: self.job_id@,
            state: self.state,
            program: self.program@,
            checkpoint_state: match self.checkpoint_state {
                Some(ref cs) => Some(cs@),
                None => None,
            },
            epoch: self.epoch,
            min_epoch: self.min_epoch,
            last_checkpoint_micros: self.last_checkpoint_micros,
            workers: self.workers@,
            tasks: self.tasks.deep_view(),
            operator_parallelism: self.operator_parallelism@,
            last_updated_metrics_micros: self.last_updated_metrics_micros,
            checkpoint_spans: self.checkpoint_spans@,
        }
    }
}

impl RunningJobModelView {
    /// The operator ids of the program name distinct operators, so that the
    /// completion table built from it has one row per operator.
    pub open spec fn spec_program_ops_unique(nodes: Seq<LogicalNodeView>) -> bool {
        forall|i: int, j: int|
            0 <= i < j < crate::checkpoint::spec_program_operators(nodes).len()
                ==> crate::checkpoint::spec_program_operators(nodes)[i].operator_id
                != crate::checkpoint::spec_program_operators(nodes)[j].operator_id
    }

    /// The model's internal invariant: retention never passes the current
    /// epoch, the in-flight coordination is well formed, and the worker and
    /// task tables have one row per identity.
    pub open spec fn wf(self) -> bool {
        &&& self.min_epoch <= self.epoch
        &&& Self::spec_program_ops_unique(self.program)
        &&& match self.checkpoint_state {
            Some(cs) => cs.wf(),
            None => true,
        }
        &&& forall|i: int, j: int|
            0 <= i < j < self.workers.len() ==> self.workers[i].id != self.workers[j].id
        &&& forall|i: int, j: int|
            0 <= i < j < self.tasks.len() ==> !(self.tasks[i].node_id == self.tasks[j].node_id
                && self.tasks[i].subtask_index == self.tasks[j].subtask_index)
    }

    /// Every task of the table has reported `Finished`.
    pub open spec fn spec_all_tasks_finished(self) -> bool {
        forall|i: int| 0 <= i < self.tasks.len() ==> (#[trigger] self.tasks[i]).state is Finished
    }

    /// Some source node's task has reported `Finished`.
    pub open spec fn spec_any_finished_sources(self) -> bool {
        exists|i: int|
            0 <= i < self.tasks.len() && (#[trigger] self.tasks[i]).state is Finished && exists|
                j: int,
            | 0 <= j < self.program.len() && (#[trigger] self.program[j]).node_id
                == self.tasks[i].node_id && self.program[j].is_source
    }

    /// A worker has missed its heartbeat deadline.
    pub open spec fn spec_any_worker_timed_out(self, now_micros: u64, timeout_micros: u64) -> bool {
        exists|i: int|
            0 <= i < self.workers.len() && now_micros >= (#[trigger] self.workers[i]).last_heartbeat_micros
                && now_micros - self.workers[i].last_heartbeat_micros > timeout_micros
    }

    /// Some task has failed.
    pub open spec fn spec_any_task_failed(self) -> bool {
        exists|i: int| 0 <= i < self.tasks.len() && (#[trigger] self.tasks[i]).state is Failed
    }

    /// The spans after closing the first span recorded for `event`, if any.
    pub open spec fn spec_finish_span(
        spans: Seq<JobCheckpointSpan>,
        event: JobCheckpointEventType,
        now_micros: u64,
    ) -> Seq<JobCheckpointSpan> {
        match find_first(spans, |s: JobCheckpointSpan| s.event == event) {
            Some(i) => spans.update(i, spans[i].spec_finish(now_micros)),
            None => spans,
        }
    }

    /// The span table after `start_or_get_span`: unchanged if a span for
    /// `event` exists, else extended with a fresh open span.
    pub open spec fn spec_start_or_get_span(
        spans: Seq<JobCheckpointSpan>,
        event: JobCheckpointEventType,
        now_micros: u64,
    ) -> Seq<JobCheckpointSpan> {
        match find_first(spans, |s: JobCheckpointSpan| s.event == event) {
            Some(i) => spans,
            None => spans.push(
                JobCheckpointSpan { event, start_micros: now_micros, finish_micros: None },
            ),
        }
    }

    /// The task table after a task-finished report for `(node_id,
    /// subtask_index)`: the task is marked finished unless it has already
    /// failed, since a failed task is terminal until the job restarts;
    /// reports for unknown keys are dropped.
    pub open spec fn spec_mark_task_finished(
        tasks: Seq<TaskStatusEntryView>,
        node_id: u32,
        subtask_index: u32,
    ) -> Seq<TaskStatusEntryView> {
        match find_first(
            tasks,
            |t: TaskStatusEntryView| t.node_id == node_id && t.subtask_index == subtask_index,
        ) {
            Some(i) => {
                if tasks[i].state is Failed {
                    tasks
                } else {
                    tasks.update(
                        i,
                        TaskStatusEntryView { state: TaskStateView::Finished, ..tasks[i] },
                    )
                }
            },
            None => tasks,
        }
    }

    /// The task table after setting the state of `(node_id, subtask_index)`,
    /// when the key is known; reports for unknown keys are dropped.
    pub open spec fn spec_set_task_state(
        tasks: Seq<TaskStatusEntryView>,
        node_id: u32,
        subtask_index: u32,
        state: TaskStateView,
    ) -> Seq<TaskStatusEntryView> {
        match find_first(
            tasks,
            |t: TaskStatusEntryView| t.node_id == node_id && t.subtask_index == subtask_index,
        ) {
            Some(i) => tasks.update(i, TaskStatusEntryView { state, ..tasks[i] }),
            None => tasks,
        }
    }

    /// The worker table after one heartbeat: the worker's last-heartbeat
    /// instant never moves backwards. Heartbeats for unknown workers are
    /// dropped.
    pub open spec fn spec_worker_heartbeat(
        workers: Seq<WorkerStatus>,
        worker_id: WorkerId,
        time_micros: u64,
    ) -> Seq<WorkerStatus> {
        match find_first(workers, |w: WorkerStatus| w.id == worker_id) {
            Some(i) => workers.update(
                i,
                WorkerStatus {
                    last_heartbeat_micros: if time_micros >= workers[i].last_heartbeat_micros {
                        time_micros
                    } else {
                        workers[i].last_heartbeat_micros
                    },
                    ..workers[i]
                },
            ),
            None => workers,
        }
    }

    /// The worker table after a worker reports that it stopped.
    pub open spec fn spec_worker_finished(
        workers: Seq<WorkerStatus>,
        worker_id: WorkerId,
    ) -> Seq<WorkerStatus> {
        match find_first(workers, |w: WorkerStatus| w.id == worker_id) {
            Some(i) => workers.update(i, WorkerStatus { state: WorkerState::Stopped, ..workers[i] }),
            None => workers,
        }
    }

    /// Whether handling `msg` is a protocol violation: a checkpoint-finished
    /// report for the current epoch arriving while the commit phase runs.
    pub open spec fn spec_message_error(self, msg: RunningMessageView) -> bool {
        match msg {
            RunningMessageView::TaskCheckpointFinished(f) => match self.checkpoint_state {
                Some(CheckpointingOrCommittingStateView::Committing(_)) => f.epoch == self.epoch,
                _ => false,
            },
            _ => false,
        }
    }

    /// The model and the emitted actions after applying one message, before
    /// the job-finished broadcast step. Only defined when
    /// `spec_message_error` does not hold.
    pub open spec fn spec_apply_message(self, msg: RunningMessageView, now_micros: u64) -> (
        RunningJobModelView,
        Seq<ControllerAction>,
    ) {
        match msg {
            RunningMessageView::TaskCheckpointEvent(c) => match self.checkpoint_state {
                None => (self, Seq::empty()),
                Some(phase) => {
                    if c.epoch != self.epoch {
                        (self, Seq::empty())
                    } else {
                        match phase {
                            CheckpointingOrCommittingStateView::Checkpointing(cs) => {
                                (
                                    RunningJobModelView {
                                        checkpoint_state: Some(
                                            CheckpointingOrCommittingStateView::Checkpointing(
                                                cs.spec_record_event(c),
                                            ),
                                        ),
                                        ..self
                                    },
                                    seq![ControllerAction::PersistCoordination],
                                )
                            },
                            CheckpointingOrCommittingStateView::Committing(cm) => {
                                if c.event_type is FinishedCommit {
                                    (
                                        RunningJobModelView {
                                            checkpoint_state: Some(
                                                CheckpointingOrCommittingStateView::Committing(
                                                    cm.spec_subtask_committed(
                                                        c.operator_id,
                                                        c.subtask_index,
                                                    ),
                                                ),
                                            ),
                                            ..self
                                        },
                                        seq![
                                            ControllerAction::CompactState,
                                            ControllerAction::PersistCoordination,
                                        ],
                                    )
                                } else {
                                    (self, seq![ControllerAction::PersistCoordination])
                                }
                            },
                        }
                    }
                },
            },
            RunningMessageView::TaskCheckpointFinished(f) => match self.checkpoint_state {
                None => (self, Seq::empty()),
                Some(phase) => {
                    if f.epoch != self.epoch {
                        (self, Seq::empty())
                    } else {
                        match phase {
                            CheckpointingOrCommittingStateView::Checkpointing(cs) => {
                                let cs2 = cs.spec_record_finished(f);
                                let spans2 = if cs2.done() {
                                    Self::spec_finish_span(
                                        self.checkpoint_spans,
                                        JobCheckpointEventType::CheckpointingOperators,
                                        now_micros,
                                    )
                                } else {
                                    self.checkpoint_spans
                                };
                                (
                                    RunningJobModelView {
                                        checkpoint_state: Some(
                                            CheckpointingOrCommittingStateView::Checkpointing(cs2),
                                        ),
                                        checkpoint_spans: spans2,
                                        ..self
                                    },
                                    seq![ControllerAction::PersistCoordination],
                                )
                            },
                            CheckpointingOrCommittingStateView::Committing(_) => {
                                (self, Seq::empty())
                            },
                        }
                    }
                },
            },
            RunningMessageView::TaskFinished { node_id, subtask_index, .. } => {
                (
                    RunningJobModelView {
                        tasks: Self::spec_mark_task_finished(self.tasks, node_id, subtask_index),
                        ..self
                    },
                    Seq::empty(),
                )
            },
            RunningMessageView::TaskFailed { node_id, subtask_index, reason, .. } => {
                (
                    RunningJobModelView {
                        tasks: Self::spec_set_task_state(
                            self.tasks,
                            node_id,
                            subtask_index,
                            TaskStateView::Failed(reason),
                        ),
                        ..self
                    },
                    Seq::empty(),
                )
            },
            RunningMessageView::WorkerHeartbeat { worker_id, time_micros } => {
                (
                    RunningJobModelView {
                        workers: Self::spec_worker_heartbeat(self.workers, worker_id, time_micros),
                        ..self
                    },
                    Seq::empty(),
                )
            },
            RunningMessageView::WorkerFinished { worker_id } => {
                (
                    RunningJobModelView {
                        workers: Self::spec_worker_finished(self.workers, worker_id),
                        ..self
                    },
                    Seq::empty(),
                )
            },
        }
    }

    /// The job-finished broadcast step that follows every handled message:
    /// when the job is running, every task has finished and no checkpoint is
    /// in flight, each worker is told exactly once that the job finished and
    /// the model stops.
    pub open spec fn spec_broadcast_step(self, actions: Seq<ControllerAction>) -> (
        RunningJobModelView,
        Seq<ControllerAction>,
    ) {
        if self.state is Running && self.spec_all_tasks_finished() && self.checkpoint_state
            is None {
            (
                RunningJobModelView { state: JobState::Stopped, ..self },
                actions + Seq::new(
                    self.workers.len(),
                    |i: int| ControllerAction::SendJobFinished { worker_id: self.workers[i].id },
                ),
            )
        } else {
            (self, actions)
        }
    }

    /// The full transition of one handled message: apply it, then run the
    /// broadcast step. Only defined when `spec_message_error` does not hold.
    pub open spec fn spec_handle_message(self, msg: RunningMessageView, now_micros: u64) -> (
        RunningJobModelView,
        Seq<ControllerAction>,
    ) {
        let (m, actions) = self.spec_apply_message(msg, now_micros);
        m.spec_broadcast_step(actions)
    }
}

/// One unit of compaction work: an operator of a node whose old checkpoint
/// state can be compacted.
pub struct CompactionItem {
    pub node_id: u32,
    pub operator_id: String,
}

/// Ghost shape of one compaction unit.
pub struct CompactionItemView {
    pub node_id: u32,
    pub operator_id: Seq<char>,
}

impl View for CompactionItem {
    type V = CompactionItemView;

    open spec fn view(&self) -> CompactionItemView {
        CompactionItemView { node_id: self.node_id, operator_id: self.operator_id@ }
    }
}

impl DeepView for CompactionItem {
    type V = CompactionItemView;

    open spec fn deep_view(&self) -> CompactionItemView {
        self.view()
    }
}

/// The compaction units of one node, in chain order.
pub open spec fn spec_node_compaction(n: LogicalNodeView) -> Seq<CompactionItemView> {
    Seq::new(
        n.operator_chain.len(),
        |j: int| CompactionItemView { node_id: n.node_id, operator_id: n.operator_chain[j] },
    )
}

/// The compaction units of the whole program, in graph order.
pub open spec fn spec_compaction_plan(nodes: Seq<LogicalNodeView>) -> Seq<CompactionItemView>
    decreases nodes.len(),
{
    if nodes.len() == 0 {
        Seq::empty()
    } else {
        spec_compaction_plan(nodes.drop_last()) + spec_node_compaction(nodes.last())
    }
}

impl RunningJobModelView {
    /// The in-flight commit phase derived from a finished checkpointing
    /// phase.
    pub open spec fn spec_derived_committing(cs: CheckpointStateView) -> crate::checkpoint::CommittingStateView {
        crate::checkpoint::CommittingStateView {
            checkpoint_id: cs.checkpoint_id,
            commit_data: crate::checkpoint::spec_committing_ops(cs.operators),
            subtasks_to_commit: crate::checkpoint::spec_committing_subtasks(cs.operators),
            committed: Seq::new(
                crate::checkpoint::spec_committing_subtasks(cs.operators).len(),
                |i: int| false,
            ),
        }
    }

    /// The model and the actions after one finalize attempt. Only defined
    /// when a coordination state is present: nothing happens while the phase
    /// is not done; a done checkpointing phase is persisted as ready or
    /// moves to the commit phase; a done commit phase is closed.
    pub open spec fn spec_finish_checkpoint(self, now_micros: u64) -> (
        RunningJobModelView,
        Seq<ControllerActionView>,
    ) {
        match self.checkpoint_state.unwrap() {
            CheckpointingOrCommittingStateView::Checkpointing(cs) => {
                if !cs.done() {
                    (self, Seq::empty())
                } else {
                    let s1 = Self::spec_start_or_get_span(
                        self.checkpoint_spans,
                        JobCheckpointEventType::WritingMetadata,
                        now_micros,
                    );
                    let s2 = Self::spec_finish_span(
                        s1,
                        JobCheckpointEventType::WritingMetadata,
                        now_micros,
                    );
                    if crate::checkpoint::spec_committing_subtasks(cs.operators).len() == 0 {
                        let s3 = Self::spec_finish_span(
                            s2,
                            JobCheckpointEventType::Checkpointing,
                            now_micros,
                        );
                        (
                            RunningJobModelView {
                                checkpoint_state: None,
                                last_checkpoint_micros: now_micros,
                                checkpoint_spans: s3,
                                ..self
                            },
                            seq![
                                ControllerActionView::WriteMetadata,
                                ControllerActionView::PersistCheckpoint(
                                    CheckpointRowUpdateView {
                                        checkpoint_id: cs.checkpoint_id,
                                        db_state: DbCheckpointState::Ready,
                                        finish_time_micros: Some(now_micros),
                                        operator_details: cs.operators,
                                        spans: s3,
                                    },
                                ),
                                ControllerActionView::CompactState,
                                ControllerActionView::NotifyDb,
                            ],
                        )
                    } else {
                        let s3 = Self::spec_start_or_get_span(
                            s2,
                            JobCheckpointEventType::Committing,
                            now_micros,
                        );
                        (
                            RunningJobModelView {
                                checkpoint_state: Some(
                                    CheckpointingOrCommittingStateView::Committing(
                                        Self::spec_derived_committing(cs),
                                    ),
                                ),
                                checkpoint_spans: s3,
                                ..self
                            },
                            seq![
                                ControllerActionView::WriteMetadata,
                                ControllerActionView::PersistCheckpoint(
                                    CheckpointRowUpdateView {
                                        checkpoint_id: cs.checkpoint_id,
                                        db_state: DbCheckpointState::Committing,
                                        finish_time_micros: None,
                                        operator_details: cs.operators,
                                        spans: s2,
                                    },
                                ),
                                ControllerActionView::SendCommit {
                                    epoch: self.epoch,
                                    committing_data: crate::checkpoint::spec_committing_ops(
                                        cs.operators,
                                    ),
                                },
                            ],
                        )
                    }
                }
            },
            CheckpointingOrCommittingStateView::Committing(cm) => {
                if !cm.done() {
                    (self, Seq::empty())
                } else {
                    let s1 = Self::spec_finish_span(
                        self.checkpoint_spans,
                        JobCheckpointEventType::Committing,
                        now_micros,
                    );
                    let s2 = Self::spec_finish_span(
                        s1,
                        JobCheckpointEventType::Checkpointing,
                        now_micros,
                    );
                    (
                        RunningJobModelView {
                            checkpoint_state: None,
                            last_checkpoint_micros: now_micros,
                            checkpoint_spans: s2,
                            ..self
                        },
                        seq![
                            ControllerActionView::PersistCommit(
                                crate::persist::CommitCheckpointRowView {
                                    checkpoint_id: cm.checkpoint_id,
                                    finish_time_micros: now_micros,
                                    spans: s2,
                                },
                            ),
                            ControllerActionView::NotifyDb,
                        ],
                    )
                }
            },
        }
    }
}

impl RunningJobModel {
    /// Index of the task row named `(node_id, subtask_index)`, if any.
    fn find_task(&self, node_id: u32, subtask_index: u32) -> (r: Option<usize>)
        ensures
            match r {
                Some(i) => i < self@.tasks.len() && find_first(
                    self@.tasks,
                    |t: TaskStatusEntryView| t.node_id == node_id && t.subtask_index
                        == subtask_index,
                ) == Some(i as int),
                None => find_first(
                    self@.tasks,
                    |t: TaskStatusEntryView| t.node_id == node_id && t.subtask_index
                        == subtask_index,
                ) is None,
            },
    {
        let n = self.tasks.len();
        for i in 0..n
            invariant
                n == self.tasks.len(),
                forall|j: int|
                    0 <= j < i ==> !((#[trigger] self@.tasks[j]).node_id == node_id
                        && self@.tasks[j].subtask_index == subtask_index),
        {
            proof {
                assert(self@.tasks[i as int] == self.tasks@[i as int].deep_view());
            }
            if self.tasks[i].node_id == node_id && self.tasks[i].subtask_index == subtask_index {
                proof {
                    crate::lemma_find_first_at(
                        self@.tasks,
                        |t: TaskStatusEntryView| t.node_id == node_id && t.subtask_index
                            == subtask_index,
                        i as int,
                    );
                }
                return Some(i);
            }
        }
        proof {
            crate::lemma_find_first_none(
                self@.tasks,
                |t: TaskStatusEntryView| t.node_id == node_id && t.subtask_index == subtask_index,
            );
        }
        None
    }

    /// Index of the worker row with the given id, if any.
    fn find_worker(&self, worker_id: WorkerId) -> (r: Option<usize>)
        ensures
            match r {
                Some(i) => i < self.workers@.len() && find_first(
                    self.workers@,
                    |w: WorkerStatus| w.id == worker_id,
                ) == Some(i as int),
                None => find_first(self.workers@, |w: WorkerStatus| w.id == worker_id) is None,
            },
    {
        let n = self.workers.len();
        for i in 0..n
            invariant
                n == self.workers.len(),
                forall|j: int| 0 <= j < i ==> (#[trigger] self.workers@[j]).id != worker_id,
        {
            if self.workers[i].id.0 == worker_id.0 {
                proof {
                    crate::lemma_find_first_at(
                        self.workers@,
                        |w: WorkerStatus| w.id == worker_id,
                        i as int,
                    );
                }
                return Some(i);
            }
        }
        proof {
            crate::lemma_find_first_none(self.workers@, |w: WorkerStatus| w.id == worker_id);
        }
        None
    }

    /// Every task of the table has reported `Finished`.
    pub fn all_tasks_finished(&self) -> (r: bool)
        ensures
            r == self@.spec_all_tasks_finished(),
    {
        let n = self.tasks.len();
        for i in 0..n
            invariant
                n == self.tasks.len(),
                forall|j: int| 0 <= j < i ==> (#[trigger] self@.tasks[j]).state is Finished,
        {
            proof {
                assert(self@.tasks[i as int] == self.tasks@[i as int].deep_view());
            }
            if !matches!(self.tasks[i].status.state, TaskState::Finished) {
                assert(!(self@.tasks[i as int].state is Finished));
                return false;
            }
        }
        true
    }

    /// Some source node's task has reported `Finished`.
    pub fn any_finished_sources(&self) -> (r: bool)
        ensures
            r == self@.spec_any_finished_sources(),
    {
        let n = self.tasks.len();
        for i in 0..n
            invariant
                n == self.tasks.len(),
                forall|j: int|
                    0 <= j < i ==> !((#[trigger] self@.tasks[j]).state is Finished
                        && self.program.spec_is_source(self@.tasks[j].node_id)),
        {
            proof {
                assert(self@.tasks[i as int] == self.tasks@[i as int].deep_view());
            }
            if matches!(self.tasks[i].status.state, TaskState::Finished) {
                let node_id = self.tasks[i].node_id;
                let m = self.program.nodes.len();
                for j in 0..m
                    invariant
                        m == self.program.nodes.len(),
                        0 <= i < self@.tasks.len(),
                        node_id == self@.tasks[i as int].node_id,
                        self@.tasks[i as int].state is Finished,
                        forall|k: int|
                            0 <= k < j ==> !((#[trigger] self.program@[k]).node_id == node_id
                                && self.program@[k].is_source),
                {
                    proof {
                        assert(self.program@[j as int] == self.program.nodes@[
                            j as int
                        ].deep_view());
                    }
                    if self.program.nodes[j].node_id == node_id && self.program.nodes[j].is_source {
                        proof {
                            let ti = i as int;
                            let pj = j as int;
                            assert(self@.program[pj].node_id == node_id
                                && self@.program[pj].is_source);
                            assert(self@.tasks[ti].state is Finished && exists|k: int|
                                0 <= k < self@.program.len() && (
                                #[trigger] self@.program[k]).node_id == self@.tasks[ti].node_id
                                    && self@.program[k].is_source);
                        }
                        return true;
                    }
                }
            }
        }
        false
    }

    /// Whether the job has failed: a worker's heartbeat is older than the
    /// allowed age, or some task reported failure.
    pub fn failed(&self, now_micros: u64, worker_heartbeat_timeout_micros: u64) -> (r: bool)
        ensures
            r == (self@.spec_any_worker_timed_out(now_micros, worker_heartbeat_timeout_micros)
                || self@.spec_any_task_failed()),
    {
        let n = self.workers.len();
        for i in 0..n
            invariant
                n == self.workers.len(),
                forall|j: int|
                    0 <= j < i ==> !(now_micros >= (
                    #[trigger] self.workers@[j]).last_heartbeat_micros && now_micros
                        - self.workers@[j].last_heartbeat_micros
                        > worker_heartbeat_timeout_micros),
        {
            if self.workers[i].heartbeat_timeout(now_micros, worker_heartbeat_timeout_micros) {
                return true;
            }
        }
        let m = self.tasks.len();
        for i in 0..m
            invariant
                m == self.tasks.len(),
                !self@.spec_any_worker_timed_out(now_micros, worker_heartbeat_timeout_micros),
                forall|j: int| 0 <= j < i ==> !((#[trigger] self@.tasks[j]).state is Failed),
        {
            proof {
                assert(self@.tasks[i as int] == self.tasks@[i as int].deep_view());
            }
            if matches!(self.tasks[i].status.state, TaskState::Failed(_)) {
                assert(self@.tasks[i as int].state is Failed);
                return true;
            }
        }
        false
    }

    /// The oldest epoch worth keeping, when a cleanup is due: more than
    /// `CHECKPOINTS_TO_KEEP` epochs are retained and the current epoch is a
    /// compaction epoch.
    pub fn cleanup_needed(&self) -> (r: Option<u32>)
        requires
            self@.min_epoch <= self@.epoch,
        ensures
            r == (if self@.epoch - self@.min_epoch > crate::CHECKPOINTS_TO_KEEP && self@.epoch
                % crate::COMPACT_EVERY == 0 {
                Some((self@.epoch - crate::CHECKPOINTS_TO_KEEP) as u32)
            } else {
                Option::<u32>::None
            }),
    {
        if self.epoch - self.min_epoch > crate::CHECKPOINTS_TO_KEEP && self.epoch
            % crate::COMPACT_EVERY == 0 {
            Some(self.epoch - crate::CHECKPOINTS_TO_KEEP)
        } else {
            None
        }
    }

    /// Return the index of the span recorded for `event`, creating an open
    /// span starting now if none exists yet. Only the first call for an
    /// event sets its start time.
    pub fn start_or_get_span(&mut self, event: JobCheckpointEventType, now_micros: u64) -> (idx:
        usize)
        ensures
            final(self)@ == (RunningJobModelView {
                checkpoint_spans: RunningJobModelView::spec_start_or_get_span(
                    old(self)@.checkpoint_spans,
                    event,
                    now_micros,
                ),
                ..old(self)@
            }),
            idx < final(self).checkpoint_spans@.len(),
            final(self).checkpoint_spans@[idx as int].event == event,
    {
        let n = self.checkpoint_spans.len();
        for i in 0..n
            invariant
                n == self.checkpoint_spans.len(),
                forall|j: int| 0 <= j < i ==> (#[trigger] self.checkpoint_spans@[j]).event != event,
        {
            if self.checkpoint_spans[i].event == event {
                proof {
                    crate::lemma_find_first_at(
                        self.checkpoint_spans@,
                        |s: JobCheckpointSpan| s.event == event,
                        i as int,
                    );
                }
                return i;
            }
        }
        proof {
            crate::lemma_find_first_none(
                self.checkpoint_spans@,
                |s: JobCheckpointSpan| s.event == event,
            );
        }
        self.checkpoint_spans.push(JobCheckpointSpan::now(event, now_micros));
        self.checkpoint_spans.len() - 1
    }

    /// Close the span recorded for `event`, if one exists. Only the first
    /// close sets the finish time.
    pub fn finish_span(&mut self, event: JobCheckpointEventType, now_micros: u64)
        ensures
            final(self)@ == (RunningJobModelView {
                checkpoint_spans: RunningJobModelView::spec_finish_span(
                    old(self)@.checkpoint_spans,
                    event,
                    now_micros,
                ),
                ..old(self)@
            }),
    {
        let n = self.checkpoint_spans.len();
        for i in 0..n
            invariant
                n == self.checkpoint_spans.len(),
                *self == *old(self),
                forall|j: int| 0 <= j < i ==> (#[trigger] self.checkpoint_spans@[j]).event != event,
        {
            if self.checkpoint_spans[i].event == event {
                proof {
                    crate::lemma_find_first_at(
                        self.checkpoint_spans@,
                        |s: JobCheckpointSpan| s.event == event,
                        i as int,
                    );
                }
                let ghost before = self@;
                let span = &mut self.checkpoint_spans[i];
                span.finish(now_micros);
                proof {
                    assert(self@.checkpoint_spans =~= before.checkpoint_spans.update(
                        i as int,
                        before.checkpoint_spans[i as int].spec_finish(now_micros),
                    ));
                }
                return ;
            }
        }
        proof {
            crate::lemma_find_first_none(
                self.checkpoint_spans@,
                |s: JobCheckpointSpan| s.event == event,
            );
        }
    }
}

/// Applying any message keeps the model's invariant.
pub proof fn lemma_apply_message_preserves_wf(
    m: RunningJobModelView,
    msg: RunningMessageView,
    now_micros: u64,
)
    requires
        m.wf(),
        !m.spec_message_error(msg),
    ensures
        m.spec_apply_message(msg, now_micros).0.wf(),
{
    let r = m.spec_apply_message(msg, now_micros).0;
    match msg {
        RunningMessageView::TaskCheckpointEvent(c) => {
            match m.checkpoint_state {
                Some(CheckpointingOrCommittingStateView::Checkpointing(cs)) => {
                    if c.epoch == m.epoch {
                        crate::checkpoint::lemma_record_event_preserves_wf(cs, c);
                    }
                },
                _ => {},
            }
        },
        RunningMessageView::TaskCheckpointFinished(f) => {
            match m.checkpoint_state {
                Some(CheckpointingOrCommittingStateView::Checkpointing(cs)) => {
                    if f.epoch == m.epoch {
                        crate::checkpoint::lemma_record_finished_preserves_wf(cs, f);
                    }
                },
                _ => {},
            }
        },
        RunningMessageView::TaskFinished { node_id, subtask_index, .. } => {
            let p = |t: TaskStatusEntryView| t.node_id == node_id && t.subtask_index
                == subtask_index;
            crate::lemma_find_first_some(m.tasks, p);
            assert forall|i: int, j: int| 0 <= i < j < r.tasks.len() implies !(r.tasks[i].node_id
                == r.tasks[j].node_id && r.tasks[i].subtask_index == r.tasks[j].subtask_index) by {
                assert(r.tasks[i].node_id == m.tasks[i].node_id && r.tasks[i].subtask_index
                    == m.tasks[i].subtask_index);
                assert(r.tasks[j].node_id == m.tasks[j].node_id && r.tasks[j].subtask_index
                    == m.tasks[j].subtask_index);
            }
        },
        RunningMessageView::TaskFailed { node_id, subtask_index, .. } => {
            let p = |t: TaskStatusEntryView| t.node_id == node_id && t.subtask_index
                == subtask_index;
            crate::lemma_find_first_some(m.tasks, p);
            assert forall|i: int, j: int| 0 <= i < j < r.tasks.len() implies !(r.tasks[i].node_id
                == r.tasks[j].node_id && r.tasks[i].subtask_index == r.tasks[j].subtask_index) by {
                assert(r.tasks[i].node_id == m.tasks[i].node_id && r.tasks[i].subtask_index
                    == m.tasks[i].subtask_index);
                assert(r.tasks[j].node_id == m.tasks[j].node_id && r.tasks[j].subtask_index
                    == m.tasks[j].subtask_index);
            }
        },
        RunningMessageView::WorkerHeartbeat { worker_id, .. } => {
            let p = |w: WorkerStatus| w.id == worker_id;
            crate::lemma_find_first_some(m.workers, p);
            assert forall|i: int, j: int| 0 <= i < j < r.workers.len() implies r.workers[i].id
                != r.workers[j].id by {
                assert(r.workers[i].id == m.workers[i].id);
                assert(r.workers[j].id == m.workers[j].id);
            }
        },
        RunningMessageView::WorkerFinished { worker_id } => {
            let p = |w: WorkerStatus| w.id == worker_id;
            crate::lemma_find_first_some(m.workers, p);
            assert forall|i: int, j: int| 0 <= i < j < r.workers.len() implies r.workers[i].id
                != r.workers[j].id by {
                assert(r.workers[i].id == m.workers[i].id);
                assert(r.workers[j].id == m.workers[j].id);
            }
        },
    }
}

impl RunningJobModel {
    /// Process exactly one inbound event, in strict arrival order: dispatch
    /// it to the in-flight coordination or the worker and task tables, then,
    /// if the job was running, every task has now finished and no checkpoint
    /// is in flight, tell every worker the job finished and stop the model.
    ///
    /// Events carrying an epoch other than the current one are dropped with
    /// the model unchanged. A checkpoint-finished report arriving during the
    /// commit phase is a protocol violation: the model is left untouched and
    /// the error surfaces to the state machine.
    pub fn handle_message(&mut self, msg: RunningMessage, now_micros: u64) -> (r: Result<
        Vec<ControllerAction>,
        ControllerError,
    >)
        requires
            old(self)@.wf(),
        ensures
            match r {
                Ok(actions) => {
                    &&& !old(self)@.spec_message_error(msg@)
                    &&& final(self)@ == old(self)@.spec_handle_message(msg@, now_micros).0
                    &&& actions@ == old(self)@.spec_handle_message(msg@, now_micros).1
                    &&& final(self)@.wf()
                },
                Err(e) => {
                    &&& old(self)@.spec_message_error(msg@)
                    &&& e == ControllerError::InvariantViolation
                    &&& *final(self) == *old(self)
                },
            },
    {
        let ghost pre = self@;
        let ghost mv = msg@;
        let mut actions: Vec<ControllerAction> = Vec::new();
        match msg {
            RunningMessage::TaskCheckpointEvent(c) => {
                let epoch = self.epoch;
                let ghost cv = c@;
                match &mut self.checkpoint_state {
                    None => {},
                    Some(phase) => {
                        if c.epoch == epoch {
                            match phase {
                                CheckpointingOrCommittingState::Checkpointing(cs) => {
                                    cs.checkpoint_event(c);
                                },
                                CheckpointingOrCommittingState::Committing(cm) => {
                                    if matches!(
                                        c.event_type,
                                        TaskCheckpointEventType::FinishedCommit,
                                    ) {
                                        proof {
                                            assert(pre.checkpoint_state.unwrap().wf());
                                        }
                                        cm.subtask_committed(&c.operator_id, c.subtask_index);
                                        actions.push(ControllerAction::CompactState);
                                    }
                                },
                            }
                            actions.push(ControllerAction::PersistCoordination);
                        }
                    },
                }
                proof {
                    assert(mv == RunningMessageView::TaskCheckpointEvent(cv));
                    assert(self@ == pre.spec_apply_message(mv, now_micros).0);
                    assert(actions@ =~= pre.spec_apply_message(mv, now_micros).1);
                }
            },
            RunningMessage::TaskCheckpointFinished(f) => {
                let epoch = self.epoch;
                let ghost fv = f@;
                match &mut self.checkpoint_state {
                    None => {},
                    Some(phase) => {
                        if f.epoch == epoch {
                            match phase {
                                CheckpointingOrCommittingState::Checkpointing(cs) => {
                                    proof {
                                        assert(pre.checkpoint_state.unwrap().wf());
                                    }
                                    cs.checkpoint_finished(f);
                                    let done = cs.done();
                                    if done {
                                        self.finish_span(
                                            JobCheckpointEventType::CheckpointingOperators,
                                            now_micros,
                                        );
                                    }
                                    actions.push(ControllerAction::PersistCoordination);
                                },
                                CheckpointingOrCommittingState::Committing(_) => {
                                    proof {
                                        assert(pre.spec_message_error(mv));
                                    }
                                    return Err(ControllerError::InvariantViolation);
                                },
                            }
                        }
                    },
                }
                proof {
                    assert(mv == RunningMessageView::TaskCheckpointFinished(fv));
                    assert(self@ == pre.spec_apply_message(mv, now_micros).0);
                    assert(actions@ =~= pre.spec_apply_message(mv, now_micros).1);
                }
            },
            RunningMessage::TaskFinished { worker_id: _, time_micros: _, node_id, subtask_index } => {
                let found = self.find_task(node_id, subtask_index);
                if let Some(i) = found {
                    let ghost before = self@;
                    proof {
                        assert(before.tasks[i as int] == self.tasks@[i as int].deep_view());
                    }
                    // A failed task is terminal until the job restarts; a
                    // late finished report must not hide the failure.
                    if !matches!(self.tasks[i].status.state, TaskState::Failed(_)) {
                        proof {
                            assert(!(before.tasks[i as int].state is Failed));
                        }
                        let entry = &mut self.tasks[i];
                        entry.status.state = TaskState::Finished;
                        proof {
                            let ii = i as int;
                            assert(self@.tasks[ii] == (TaskStatusEntryView {
                                state: TaskStateView::Finished,
                                ..before.tasks[ii]
                            }));
                            assert(self@.tasks =~= before.tasks.update(
                                ii,
                                TaskStatusEntryView {
                                    state: TaskStateView::Finished,
                                    ..before.tasks[ii]
                                },
                            ));
                        }
                    } else {
                        proof {
                            assert(before.tasks[i as int].state is Failed);
                        }
                    }
                }
                proof {
                    assert(self@ == pre.spec_apply_message(mv, now_micros).0);
                    assert(actions@ =~= pre.spec_apply_message(mv, now_micros).1);
                }
            },
            RunningMessage::TaskFailed {
                worker_id: _,
                time_micros: _,
                node_id,
                subtask_index,
                reason,
            } => {
                let ghost rv = reason@;
                let found = self.find_task(node_id, subtask_index);
                if let Some(i) = found {
                    let ghost before = self@;
                    let entry = &mut self.tasks[i];
                    entry.status.state = TaskState::Failed(reason);
                    proof {
                        let ii = i as int;
                        assert(self@.tasks[ii] == (TaskStatusEntryView {
                            state: TaskStateView::Failed(rv),
                            ..before.tasks[ii]
                        }));
                        assert(self@.tasks =~= before.tasks.update(
                            ii,
                            TaskStatusEntryView {
                                state: TaskStateView::Failed(rv),
                                ..before.tasks[ii]
                            },
                        ));
                    }
                }
                proof {
                    assert(self@ == pre.spec_apply_message(mv, now_micros).0);
                    assert(actions@ =~= pre.spec_apply_message(mv, now_micros).1);
                }
            },
            RunningMessage::WorkerHeartbeat { worker_id, time_micros } => {
                let found = self.find_worker(worker_id);
                if let Some(i) = found {
                    let ghost before = self@;
                    let w = &mut self.workers[i];
                    if time_micros >= w.last_heartbeat_micros {
                        w.last_heartbeat_micros = time_micros;
                    }
                    proof {
                        assert(self@.workers =~= RunningJobModelView::spec_worker_heartbeat(
                            before.workers,
                            worker_id,
                            time_micros,
                        ));
                    }
                }
                proof {
                    assert(self@ == pre.spec_apply_message(mv, now_micros).0);
                    assert(actions@ =~= pre.spec_apply_message(mv, now_micros).1);
                }
            },
            RunningMessage::WorkerFinished { worker_id } => {
                let found = self.find_worker(worker_id);
                if let Some(i) = found {
                    let ghost before = self@;
                    let w = &mut self.workers[i];
                    w.state = WorkerState::Stopped;
                    proof {
                        assert(self@.workers =~= RunningJobModelView::spec_worker_finished(
                            before.workers,
                            worker_id,
                        ));
                    }
                }
                proof {
                    assert(self@ == pre.spec_apply_message(mv, now_micros).0);
                    assert(actions@ =~= pre.spec_apply_message(mv, now_micros).1);
                }
            },
        }
        let ghost mid = self@;
        let ghost acts_mid = actions@;
        if matches!(self.state, JobState::Running) && self.all_tasks_finished()
            && self.checkpoint_state.is_none() {
            let n = self.workers.len();
            for i in 0..n
                invariant
                    n == self.workers.len(),
                    actions@ == acts_mid + Seq::new(
                        i as nat,
                        |x: int| ControllerAction::SendJobFinished {
                            worker_id: self.workers@[x].id,
                        },
                    ),
            {
                let wid = self.workers[i].id;
                actions.push(ControllerAction::SendJobFinished { worker_id: wid });
                proof {
                    assert(actions@ =~= acts_mid + Seq::new(
                        (i + 1) as nat,
                        |x: int| ControllerAction::SendJobFinished {
                            worker_id: self.workers@[x].id,
                        },
                    ));
                }
            }
            self.state = JobState::Stopped;
            proof {
                assert(self@ == mid.spec_broadcast_step(acts_mid).0);
                assert(actions@ =~= mid.spec_broadcast_step(acts_mid).1);
            }
        } else {
            proof {
                assert(self@ == mid.spec_broadcast_step(acts_mid).0);
                assert(actions@ == mid.spec_broadcast_step(acts_mid).1);
            }
        }
        proof {
            lemma_apply_message_preserves_wf(pre, mv, now_micros);
            assert(self@.wf());
        }
        Ok(actions)
    }
}

impl RunningJobModel {
    /// The checkpoint row update for the given coordination snapshot: the
    /// aggregated operator details, the given state with a finish time only
    /// when the row becomes ready, and the current span log.
    pub fn update_checkpoint_in_db(
        &self,
        checkpoint_state: &CheckpointState,
        db_checkpoint_state: DbCheckpointState,
        now_micros: u64,
    ) -> (row: CheckpointRowUpdate)
        ensures
            row@ == (CheckpointRowUpdateView {
                checkpoint_id: checkpoint_state@.checkpoint_id,
                db_state: db_checkpoint_state,
                finish_time_micros: if db_checkpoint_state is Ready {
                    Some(now_micros)
                } else {
                    None
                },
                operator_details: checkpoint_state@.operators,
                spans: self@.checkpoint_spans,
            }),
    {
        let finish_time_micros = if db_checkpoint_state == DbCheckpointState::Ready {
            Some(now_micros)
        } else {
            None
        };
        CheckpointRowUpdate {
            checkpoint_id: checkpoint_state.checkpoint_id.clone(),
            db_state: db_checkpoint_state,
            finish_time_micros,
            operator_details: crate::checkpoint::clone_operators(&checkpoint_state.operators),
            spans: crate::checkpoint::clone_spans(&self.checkpoint_spans),
        }
    }

    /// The row update for the live coordination state, persisted after every
    /// accepted protocol event: the in-progress checkpoint row while the
    /// checkpointing phase runs, or the commit-progress snapshot with the
    /// acknowledged subtasks while the commit phase runs.
    pub fn update_db(&self) -> (row: Option<CoordinationRowUpdate>)
        requires
            self@.wf(),
        ensures
            match self@.checkpoint_state {
                Some(CheckpointingOrCommittingStateView::Checkpointing(cs)) => {
                    row matches Some(CoordinationRowUpdate::Checkpointing(u)) && u@ == (CheckpointRowUpdateView {
                        checkpoint_id: cs.checkpoint_id,
                        db_state: DbCheckpointState::InProgress,
                        finish_time_micros: None,
                        operator_details: cs.operators,
                        spans: self@.checkpoint_spans,
                    })
                },
                Some(CheckpointingOrCommittingStateView::Committing(cm)) => {
                    row matches Some(CoordinationRowUpdate::Committing(p)) && p@ == (crate::persist::CommitProgressRowView {
                        checkpoint_id: cm.checkpoint_id,
                        committed_subtasks: crate::checkpoint::spec_acknowledged(
                            cm.subtasks_to_commit,
                            cm.committed,
                        ),
                        spans: self@.checkpoint_spans,
                    })
                },
                None => row is None,
            },
    {
        match &self.checkpoint_state {
            Some(CheckpointingOrCommittingState::Checkpointing(cs)) => {
                Some(
                    CoordinationRowUpdate::Checkpointing(
                        CheckpointRowUpdate {
                            checkpoint_id: cs.checkpoint_id.clone(),
                            db_state: DbCheckpointState::InProgress,
                            finish_time_micros: None,
                            operator_details: crate::checkpoint::clone_operators(&cs.operators),
                            spans: crate::checkpoint::clone_spans(&self.checkpoint_spans),
                        },
                    ),
                )
            },
            Some(CheckpointingOrCommittingState::Committing(cm)) => {
                Some(
                    CoordinationRowUpdate::Committing(
                        CommitProgressRow {
                            checkpoint_id: cm.checkpoint_id.clone(),
                            committed_subtasks: cm.committed_subtasks(),
                            spans: crate::checkpoint::clone_spans(&self.checkpoint_spans),
                        },
                    ),
                )
            },
            None => None,
        }
    }

    /// The commit-closing update for the given checkpoint row: the finish
    /// time and the final span log.
    pub fn finish_committing(&self, checkpoint_id: &String, now_micros: u64) -> (row:
        CommitCheckpointRow)
        ensures
            row@ == (crate::persist::CommitCheckpointRowView {
                checkpoint_id: checkpoint_id@,
                finish_time_micros: now_micros,
                spans: self@.checkpoint_spans,
            }),
    {
        CommitCheckpointRow {
            checkpoint_id: checkpoint_id.clone(),
            finish_time_micros: now_micros,
            spans: crate::checkpoint::clone_spans(&self.checkpoint_spans),
        }
    }

    /// Finalize the in-flight checkpoint if its phase has nothing left to
    /// wait for: a done checkpointing phase has its metadata written and is
    /// persisted ready when no operator declared commit work, else it is
    /// persisted committing and the commit requests go out; a done commit
    /// phase closes the spans and persists the finish time.
    pub fn finish_checkpoint_if_done(&mut self, now_micros: u64) -> (actions: Vec<
        ControllerAction,
    >)
        requires
            old(self)@.wf(),
            old(self)@.checkpoint_state is Some,
        ensures
            final(self)@ == old(self)@.spec_finish_checkpoint(now_micros).0,
            actions.deep_view() == old(self)@.spec_finish_checkpoint(now_micros).1,
            final(self)@.wf(),
    {
        let ghost pre = self@;
        let mut actions: Vec<ControllerAction> = Vec::new();
        let done = match &self.checkpoint_state {
            Some(cs) => cs.done(),
            None => false,
        };
        if !done {
            proof {
                assert(actions.deep_view() =~= pre.spec_finish_checkpoint(now_micros).1);
            }
            return actions;
        }
        let state = self.checkpoint_state.take().unwrap();
        match state {
            CheckpointingOrCommittingState::Checkpointing(checkpointing) => {
                let ghost cs_v = checkpointing@;
                self.start_or_get_span(JobCheckpointEventType::WritingMetadata, now_micros);
                actions.push(ControllerAction::WriteMetadata);
                self.finish_span(JobCheckpointEventType::WritingMetadata, now_micros);
                let committing_state = checkpointing.committing_state();
                let commit_done = committing_state.done();
                if commit_done {
                    self.finish_span(JobCheckpointEventType::Checkpointing, now_micros);
                    let row = self.update_checkpoint_in_db(
                        &checkpointing,
                        DbCheckpointState::Ready,
                        now_micros,
                    );
                    actions.push(ControllerAction::PersistCheckpoint(row));
                    self.last_checkpoint_micros = now_micros;
                    actions.push(ControllerAction::CompactState);
                    actions.push(ControllerAction::NotifyDb);
                    proof {
                        let target = pre.spec_finish_checkpoint(now_micros);
                        assert(crate::checkpoint::spec_committing_subtasks(cs_v.operators).len()
                            == 0);
                        assert(self@ == target.0);
                        assert(actions@.len() == 4);
                        assert forall|x: int| 0 <= x < 4 implies actions.deep_view()[x]
                            == target.1[x] by {
                            assert(actions.deep_view()[x] == actions@[x]@);
                        }
                        assert(actions.deep_view() =~= target.1);
                    }
                } else {
                    let committing_data = committing_state.committing_data();
                    let row = self.update_checkpoint_in_db(
                        &checkpointing,
                        DbCheckpointState::Committing,
                        now_micros,
                    );
                    actions.push(ControllerAction::PersistCheckpoint(row));
                    let epoch = self.epoch;
                    self.checkpoint_state = Some(
                        CheckpointingOrCommittingState::Committing(committing_state),
                    );
                    self.start_or_get_span(JobCheckpointEventType::Committing, now_micros);
                    actions.push(ControllerAction::SendCommit { epoch, committing_data });
                    proof {
                        let target = pre.spec_finish_checkpoint(now_micros);
                        assert(crate::checkpoint::spec_committing_subtasks(cs_v.operators).len()
                            != 0);
                        assert(self@.checkpoint_state
                            == Some(CheckpointingOrCommittingStateView::Committing(
                            RunningJobModelView::spec_derived_committing(cs_v),
                        )));
                        assert(self@ == target.0);
                        assert(actions@.len() == 3);
                        assert forall|x: int| 0 <= x < 3 implies actions.deep_view()[x]
                            == target.1[x] by {
                            assert(actions.deep_view()[x] == actions@[x]@);
                        }
                        assert(actions.deep_view() =~= target.1);
                    }
                }
            },
            CheckpointingOrCommittingState::Committing(committing) => {
                let ghost cm_v = committing@;
                self.finish_span(JobCheckpointEventType::Committing, now_micros);
                self.finish_span(JobCheckpointEventType::Checkpointing, now_micros);
                let row = self.finish_committing(&committing.checkpoint_id, now_micros);
                actions.push(ControllerAction::PersistCommit(row));
                self.last_checkpoint_micros = now_micros;
                actions.push(ControllerAction::NotifyDb);
                proof {
                    let target = pre.spec_finish_checkpoint(now_micros);
                    assert(self@ == target.0);
                    assert(actions@.len() == 2);
                    assert forall|x: int| 0 <= x < 2 implies actions.deep_view()[x]
                        == target.1[x] by {
                        assert(actions.deep_view()[x] == actions@[x]@);
                    }
                    assert(actions.deep_view() =~= target.1);
                }
            },
        }
        actions
    }

    /// Begin a new checkpoint epoch: the epoch advances by exactly one, the
    /// span log restarts with the two opening spans, and the request to
    /// broadcast to every worker is returned. An epoch the metadata store's
    /// signed column could not hold is rejected.
    ///
    /// The caller installs the coordinator with `install_checkpoint` once
    /// every worker has accepted the request.
    pub fn start_checkpoint(&mut self, now_micros: u64, then_stop: bool) -> (r: Result<
        CheckpointReq,
        ControllerError,
    >)
        requires
            old(self)@.wf(),
            old(self)@.checkpoint_state is None,
        ensures
            match r {
                Ok(req) => {
                    &&& old(self)@.epoch < crate::persist::MAX_DB_EPOCH
                    &&& final(self)@ == (RunningJobModelView {
                        epoch: (old(self)@.epoch + 1) as u32,
                        checkpoint_spans: seq![
                            JobCheckpointSpan {
                                event: JobCheckpointEventType::Checkpointing,
                                start_micros: now_micros,
                                finish_micros: None,
                            },
                            JobCheckpointSpan {
                                event: JobCheckpointEventType::CheckpointingOperators,
                                start_micros: now_micros,
                                finish_micros: None,
                            },
                        ],
                        ..old(self)@
                    })
                    &&& req == (CheckpointReq {
                        epoch: (old(self)@.epoch + 1) as u32,
                        timestamp_micros: now_micros,
                        min_epoch: old(self)@.min_epoch,
                        then_stop,
                        is_commit: false,
                    })
                    &&& final(self)@.wf()
                },
                Err(e) => {
                    &&& e == ControllerError::EpochOverflow
                    &&& old(self)@.epoch >= crate::persist::MAX_DB_EPOCH
                    &&& *final(self) == *old(self)
                },
            },
    {
        if self.epoch >= crate::persist::MAX_DB_EPOCH {
            return Err(ControllerError::EpochOverflow);
        }
        self.epoch = self.epoch + 1;
        self.checkpoint_spans.clear();
        self.start_or_get_span(JobCheckpointEventType::Checkpointing, now_micros);
        self.start_or_get_span(JobCheckpointEventType::CheckpointingOperators, now_micros);
        proof {
            assert(self@.checkpoint_spans =~= seq![
                JobCheckpointSpan {
                    event: JobCheckpointEventType::Checkpointing,
                    start_micros: now_micros,
                    finish_micros: None,
                },
                JobCheckpointSpan {
                    event: JobCheckpointEventType::CheckpointingOperators,
                    start_micros: now_micros,
                    finish_micros: None,
                },
            ]);
        }
        Ok(
            CheckpointReq {
                epoch: self.epoch,
                timestamp_micros: now_micros,
                min_epoch: self.min_epoch,
                then_stop,
                is_commit: false,
            },
        )
    }

    /// The row inserted for the new checkpoint.
    pub fn create_checkpoint_row(
        &self,
        checkpoint_id: &String,
        organization_id: &String,
        state_backend: &String,
        now_micros: u64,
    ) -> (row: NewCheckpointRow)
        requires
            self@.wf(),
            self@.epoch <= crate::persist::MAX_DB_EPOCH,
        ensures
            row@ == (crate::persist::NewCheckpointRowView {
                checkpoint_id: checkpoint_id@,
                organization_id: organization_id@,
                job_id: self@.job_id,
                state_backend: state_backend@,
                epoch: self@.epoch as i32,
                min_epoch: self@.min_epoch as i32,
                start_time_micros: now_micros,
            }),
    {
        proof {
            assert(self@.min_epoch <= crate::persist::MAX_DB_EPOCH);
        }
        NewCheckpointRow {
            checkpoint_id: checkpoint_id.clone(),
            organization_id: organization_id.clone(),
            job_id: self.job_id.clone(),
            state_backend: state_backend.clone(),
            epoch: self.epoch as i32,
            min_epoch: self.min_epoch as i32,
            start_time_micros: now_micros,
        }
    }

    /// Install a fresh checkpointing coordinator for the current epoch, with
    /// one completion table per operator of the program and nothing reported
    /// yet.
    pub fn install_checkpoint(&mut self, checkpoint_id: String, now_micros: u64)
        requires
            old(self)@.wf(),
            old(self)@.checkpoint_state is None,
        ensures
            final(self)@ == (RunningJobModelView {
                checkpoint_state: Some(
                    CheckpointingOrCommittingStateView::Checkpointing(
                        CheckpointStateView {
                            checkpoint_id: checkpoint_id@,
                            epoch: old(self)@.epoch,
                            min_epoch: old(self)@.min_epoch,
                            start_time_micros: now_micros,
                            operators: crate::checkpoint::spec_program_operators(
                                old(self)@.program,
                            ),
                        },
                    ),
                ),
                ..old(self)@
            }),
            final(self)@.wf(),
    {
        let ghost id_v = checkpoint_id@;
        let cs = CheckpointState::new(
            checkpoint_id,
            self.epoch,
            self.min_epoch,
            now_micros,
            &self.program,
        );
        self.checkpoint_state = Some(CheckpointingOrCommittingState::Checkpointing(cs));
        proof {
            crate::checkpoint::lemma_program_operators_wf(self@.program);
            assert(self@.checkpoint_state.unwrap().wf());
        }
    }

    /// Open the compaction span and lay out the compaction work: one unit
    /// per operator of the program, in graph order. Returns nothing when
    /// compaction is disabled, leaving the model untouched.
    pub fn compact_state(&mut self, now_micros: u64, compaction_enabled: bool) -> (plan: Option<
        Vec<CompactionItem>,
    >)
        ensures
            !compaction_enabled ==> plan is None && *final(self) == *old(self),
            compaction_enabled ==> {
                &&& final(self)@ == (RunningJobModelView {
                    checkpoint_spans: RunningJobModelView::spec_start_or_get_span(
                        old(self)@.checkpoint_spans,
                        JobCheckpointEventType::Compacting,
                        now_micros,
                    ),
                    ..old(self)@
                })
                &&& plan matches Some(p) && p.deep_view() == spec_compaction_plan(
                    old(self)@.program,
                )
            },
    {
        if !compaction_enabled {
            return None;
        }
        self.start_or_get_span(JobCheckpointEventType::Compacting, now_micros);
        let mut plan: Vec<CompactionItem> = Vec::new();
        let n = self.program.nodes.len();
        for i in 0..n
            invariant
                n == self.program.nodes.len(),
                plan.deep_view() == spec_compaction_plan(self@.program.take(i as int)),
        {
            let node = &self.program.nodes[i];
            let m = node.operator_chain.len();
            let ghost plan_before = plan.deep_view();
            for j in 0..m
                invariant
                    m == node.operator_chain.len(),
                    0 <= i < self.program.nodes@.len(),
                    *node == self.program.nodes@[i as int],
                    plan.deep_view() =~= plan_before + spec_node_compaction(node@).take(j as int),
            {
                let item = CompactionItem {
                    node_id: node.node_id,
                    operator_id: node.operator_chain[j].operator_id.clone(),
                };
                proof {
                    assert(node@.operator_chain[j as int] == node.operator_chain@[
                        j as int
                    ].deep_view());
                    assert(item@ == spec_node_compaction(node@)[j as int]);
                }
                let ghost prev = plan@;
                let ghost prev_deep = plan.deep_view();
                plan.push(item);
                proof {
                    crate::lemma_vec_deep_view_push(prev, prev_deep, plan, item);
                    assert(spec_node_compaction(node@).take(j + 1) =~= spec_node_compaction(
                        node@,
                    ).take(j as int).push(spec_node_compaction(node@)[j as int]));
                    assert(plan.deep_view() =~= plan_before + spec_node_compaction(node@).take(
                        j + 1,
                    ));
                }
            }
            proof {
                assert(spec_node_compaction(node@).take(m as int) =~= spec_node_compaction(node@));
                assert(self@.program.take(i + 1).drop_last() =~= self@.program.take(i as int));
                assert(self@.program.take(i + 1).last() == self@.program[i as int]);
                assert(node@ == self@.program[i as int]);
                assert(plan.deep_view() =~= spec_compaction_plan(self@.program.take(i + 1)));
            }
        }
        proof {
            assert(self@.program.take(n as int) =~= self@.program);
        }
        Some(plan)
    }

    /// Close the compaction span once the compaction work is done.
    pub fn finish_compaction(&mut self, now_micros: u64)
        ensures
            final(self)@ == (RunningJobModelView {
                checkpoint_spans: RunningJobModelView::spec_finish_span(
                    old(self)@.checkpoint_spans,
                    JobCheckpointEventType::Compacting,
                    now_micros,
                ),
                ..old(self)@
            }),
    {
        self.finish_span(JobCheckpointEventType::Compacting, now_micros);
    }
}

/// Opening a span again returns the existing span: after the first call for
/// an event, later calls leave the span table unchanged, whatever instant
/// they carry.
pub proof fn lemma_start_or_get_span_idempotent(
    spans: Seq<JobCheckpointSpan>,
    event: JobCheckpointEventType,
    t1: u64,
    t2: u64,
)
    ensures
        RunningJobModelView::spec_start_or_get_span(
            RunningJobModelView::spec_start_or_get_span(spans, event, t1),
            event,
            t2,
        ) == RunningJobModelView::spec_start_or_get_span(spans, event, t1),
{
    let p = |s: JobCheckpointSpan| s.event == event;
    let s1 = RunningJobModelView::spec_start_or_get_span(spans, event, t1);
    crate::lemma_find_first_some(spans, p);
    match find_first(spans, p) {
        Some(i) => {},
        None => {
            crate::lemma_find_first_at(s1, p, spans.len() as int);
        },
    }
}

/// Closing a span is idempotent: only the first close sets the finish time.
pub proof fn lemma_finish_span_idempotent(
    spans: Seq<JobCheckpointSpan>,
    event: JobCheckpointEventType,
    t1: u64,
    t2: u64,
)
    ensures
        RunningJobModelView::spec_finish_span(
            RunningJobModelView::spec_finish_span(spans, event, t1),
            event,
            t2,
        ) == RunningJobModelView::spec_finish_span(spans, event, t1),
{
    let p = |s: JobCheckpointSpan| s.event == event;
    let s1 = RunningJobModelView::spec_finish_span(spans, event, t1);
    crate::lemma_find_first_some(spans, p);
    match find_first(spans, p) {
        Some(i) => {
            assert forall|j: int| 0 <= j < s1.len() implies p(s1[j]) == p(spans[j]) by {}
            crate::lemma_find_first_equiv(s1, spans, p);
            assert(s1[i] == spans[i].spec_finish(t1));
            assert(s1[i].spec_finish(t2) == s1[i]);
            assert(s1.update(i, s1[i]) =~= s1);
        },
        None => {},
    }
}

/// A protocol event carrying any epoch other than the current one is dropped:
/// the model is unchanged and no outside work is requested.
pub proof fn lemma_wrong_epoch_event_ignored(
    m: RunningJobModelView,
    msg: RunningMessageView,
    now_micros: u64,
)
    requires
        m.checkpoint_state is Some,
        match msg {
            RunningMessageView::TaskCheckpointEvent(c) => c.epoch != m.epoch,
            RunningMessageView::TaskCheckpointFinished(f) => f.epoch != m.epoch,
            _ => false,
        },
    ensures
        !m.spec_message_error(msg),
        m.spec_handle_message(msg, now_micros).0 == m,
        m.spec_handle_message(msg, now_micros).1 == Seq::<ControllerAction>::empty(),
{
}

/// The dispatch step of a handled message never requests a job-finished
/// call; only the broadcast step does.
proof fn lemma_apply_message_no_finish(
    m: RunningJobModelView,
    msg: RunningMessageView,
    now_micros: u64,
)
    ensures
        forall|k: int|
            0 <= k < m.spec_apply_message(msg, now_micros).1.len() ==> !((
            #[trigger] m.spec_apply_message(msg, now_micros).1[k]) is SendJobFinished),
{
}

/// The job-finished broadcast happens exactly once in a model's lifetime:
/// the message that triggers it tells every worker exactly once and stops
/// the model, and a stopped model never broadcasts again.
pub proof fn lemma_job_finished_exactly_once(
    m: RunningJobModelView,
    msg: RunningMessageView,
    now_micros: u64,
)
    requires
        m.wf(),
        !m.spec_message_error(msg),
    ensures
        ({
            let (m1, a1) = m.spec_handle_message(msg, now_micros);
            &&& (exists|k: int| 0 <= k < a1.len() && (#[trigger] a1[k]) is SendJobFinished) ==> {
                let base = m.spec_apply_message(msg, now_micros).1.len() as int;
                let mid = m.spec_apply_message(msg, now_micros).0;
                &&& m.state is Running
                &&& m1.state is Stopped
                &&& a1.len() == base + mid.workers.len()
                &&& forall|i: int|
                    0 <= i < mid.workers.len() ==> a1[base + i]
                        == (ControllerAction::SendJobFinished { worker_id: mid.workers[i].id })
                &&& forall|k: int| 0 <= k < base ==> !((#[trigger] a1[k]) is SendJobFinished)
                &&& forall|i: int, j: int|
                    0 <= i < j < mid.workers.len() ==> mid.workers[i].id != mid.workers[j].id
            }
            &&& (m.state is Stopped ==> m1.state is Stopped && (forall|k: int|
                0 <= k < a1.len() ==> !((#[trigger] a1[k]) is SendJobFinished)))
        }),
{
    lemma_apply_message_no_finish(m, msg, now_micros);
    lemma_apply_message_preserves_wf(m, msg, now_micros);
    let (mid, base_actions) = m.spec_apply_message(msg, now_micros);
    if mid.state is Running && mid.spec_all_tasks_finished() && mid.checkpoint_state is None {
        assert(mid.state == m.state);
    } else {
        assert(m.spec_handle_message(msg, now_micros).1 == base_actions);
    }
}

/// Replaying the same checkpoint-finished report yields the same model
/// state: the coordination update is idempotent.
pub proof fn lemma_checkpoint_finished_replay(
    m: RunningJobModelView,
    f: TaskCheckpointFinishedView,
    now_micros: u64,
)
    requires
        m.wf(),
        !m.spec_message_error(RunningMessageView::TaskCheckpointFinished(f)),
    ensures
        ({
            let m1 = m.spec_handle_message(
                RunningMessageView::TaskCheckpointFinished(f),
                now_micros,
            ).0;
            m1.spec_handle_message(RunningMessageView::TaskCheckpointFinished(f), now_micros).0
                == m1
        }),
{
    let msg = RunningMessageView::TaskCheckpointFinished(f);
    let m1 = m.spec_handle_message(msg, now_micros).0;
    match m.checkpoint_state {
        Some(CheckpointingOrCommittingStateView::Checkpointing(cs)) => {
            if f.epoch == m.epoch {
                let cs1 = cs.spec_record_finished(f);
                crate::checkpoint::lemma_record_finished_idempotent(cs, f);
                crate::checkpoint::lemma_record_finished_preserves_wf(cs, f);
                assert(cs1.spec_record_finished(f) == cs1);
                if cs1.done() {
                    lemma_finish_span_idempotent(
                        m.checkpoint_spans,
                        JobCheckpointEventType::CheckpointingOperators,
                        now_micros,
                        now_micros,
                    );
                }
                assert(m1.spec_apply_message(msg, now_micros).0 == m1);
            } else {
                assert(m1 == m);
            }
        },
        Some(CheckpointingOrCommittingStateView::Committing(_)) => {
            assert(f.epoch != m.epoch);
            assert(m1 == m);
        },
        None => {
            let mid = m.spec_apply_message(msg, now_micros).0;
            assert(mid == m);
            if m.state is Running && m.spec_all_tasks_finished() && m.checkpoint_state is None {
                assert(m1.state is Stopped);
                assert(m1.spec_apply_message(msg, now_micros).0 == m1);
            } else {
                assert(m1 == m);
                assert(m1.spec_apply_message(msg, now_micros).0 == m1);
            }
        },
    }
}

/// Every slot of every completion table is marked finished.
pub open spec fn spec_all_slots_finished(
    ops: Seq<crate::checkpoint::OperatorCheckpointStateView>,
) -> bool {
    forall|i: int, j: int|
        0 <= i < ops.len() && 0 <= j < ops[i].finished_subtasks.len() ==> #[trigger] ops[
            i
        ].finished_subtasks[j]
}

/// A checkpoint row reaches the ready state only when every subtask of every
/// operator has reported its snapshot durable, and the commit-closing write
/// goes out only when every owed subtask has acknowledged its commit.
pub proof fn lemma_persisted_states_need_acknowledgements(m: RunningJobModelView, now_micros: u64)
    requires
        m.wf(),
        m.checkpoint_state is Some,
    ensures
        ({
            let actions = m.spec_finish_checkpoint(now_micros).1;
            forall|k: int|
                0 <= k < actions.len() ==> match #[trigger] actions[k] {
                    ControllerActionView::PersistCheckpoint(u) => u.db_state is Ready
                        ==> spec_all_slots_finished(u.operator_details),
                    ControllerActionView::PersistCommit(_) => match m.checkpoint_state.unwrap() {
                        CheckpointingOrCommittingStateView::Committing(cm) => cm.done(),
                        _ => false,
                    },
                    _ => true,
                }
        }),
{
    match m.checkpoint_state.unwrap() {
        CheckpointingOrCommittingStateView::Checkpointing(cs) => {
            if cs.done() {
                assert forall|i: int, j: int|
                    0 <= i < cs.operators.len() && 0 <= j
                        < cs.operators[i].finished_subtasks.len() implies #[trigger] cs.operators[
                    i
                ].finished_subtasks[j] by {
                    assert(cs.operators[i].done());
                }
            }
        },
        CheckpointingOrCommittingStateView::Committing(cm) => {},
    }
}

} // verus!
