//! Per-epoch checkpoint coordination: the span log kept on a checkpoint for
//! observability, the per-operator completion table driven by worker reports,
//! and the commit phase that follows when operators declare commit work.

use crate::find_first;
use crate::program::LogicalProgram;
use vstd::prelude::*;

verus! {

/// Checkpoint-wide phases recorded as spans on the checkpoint row.
#[derive(Clone, Copy, Debug, PartialEq, Eq, Structural)]
pub enum JobCheckpointEventType {
    Checkpointing,
    CheckpointingOperators,
    WritingMetadata,
    Committing,
    Compacting,
}

/// A named interval on a checkpoint: opened at `start_micros`, closed when
/// `finish_micros` is set. Times are microseconds since the Unix epoch.
#[derive(Clone, Copy, Debug, PartialEq, Eq, Structural)]
pub struct JobCheckpointSpan {
    pub event: JobCheckpointEventType,
    pub start_micros: u64,
    pub finish_micros: Option<u64>,
}

impl JobCheckpointSpan {
    /// An open span for `event` starting now.
    pub fn now(event: JobCheckpointEventType, now_micros: u64) -> (s: Self)
        ensures
            s == (JobCheckpointSpan { event, start_micros: now_micros, finish_micros: None }),
    {
        JobCheckpointSpan { event, start_micros: now_micros, finish_micros: None }
    }

    /// The span after closing at `now_micros`: closing is idempotent, so a
    /// span that is already closed keeps its original finish time.
    pub open spec fn spec_finish(self, now_micros: u64) -> Self {
        if self.finish_micros is None {
            JobCheckpointSpan { finish_micros: Some(now_micros), ..self }
        } else {
            self
        }
    }

    /// Close the span. Only the first close sets the finish time.
    pub fn finish(&mut self, now_micros: u64)
        ensures
            *final(self) == old(self).spec_finish(now_micros),
    {
        if self.finish_micros.is_none() {
            self.finish_micros = Some(now_micros);
        }
    }
}

/// The request broadcast to every worker to start one checkpoint epoch.
#[derive(Clone, Copy, Debug, PartialEq, Eq, Structural)]
pub struct CheckpointReq {
    pub epoch: u32,
    pub timestamp_micros: u64,
    pub min_epoch: u32,
    pub then_stop: bool,
    pub is_commit: bool,
}

/// Kinds of checkpoint progress reports a subtask emits while a barrier
/// passes through it.
#[derive(Clone, Copy, Debug, PartialEq, Eq, Structural)]
pub enum TaskCheckpointEventType {
    AlignmentStarted,
    CheckpointStarted,
    FinishedSync,
    FinishedCommit,
}

/// One checkpoint progress report from a subtask.
#[derive(Clone, Debug, PartialEq, Eq)]
pub struct TaskCheckpointEvent {
    pub time_micros: u64,
    pub operator_id: String,
    pub subtask_index: u32,
    pub epoch: u32,
    pub event_type: TaskCheckpointEventType,
}

/// A subtask's report that its snapshot for `epoch` is durable. A subtask
/// with two-phase commit work to do declares it by carrying the opaque
/// payload the controller must hand back in the commit request.
#[derive(Clone, Debug, PartialEq, Eq)]
pub struct TaskCheckpointFinished {
    pub time_micros: u64,
    pub operator_id: String,
    pub subtask_index: u32,
    pub epoch: u32,
    pub committing_data: Option<Vec<u8>>,
}

/// Ghost shape of a checkpoint progress report.
pub struct TaskCheckpointEventView {
    pub time_micros: u64,
    pub operator_id: Seq<char>,
    pub subtask_index: u32,
    pub epoch: u32,
    pub event_type: TaskCheckpointEventType,
}

impl View for TaskCheckpointEvent {
    type V = TaskCheckpointEventView;

    open spec fn view(&self) -> TaskCheckpointEventView {
        TaskCheckpointEventView {
            time_micros: self.time_micros,
            operator_id: self.operator_id@,
            subtask_index: self.subtask_index,
            epoch: self.epoch,
            event_type: self.event_type,
        }
    }
}

impl DeepView for TaskCheckpointEvent {
    type V = TaskCheckpointEventView;

    open spec fn deep_view(&self) -> TaskCheckpointEventView {
        self.view()
    }
}

/// Ghost shape of a subtask's checkpoint-finished report.
pub struct TaskCheckpointFinishedView {
    pub time_micros: u64,
    pub operator_id: Seq<char>,
    pub subtask_index: u32,
    pub epoch: u32,
    pub committing_data: Option<Seq<u8>>,
}

impl View for TaskCheckpointFinished {
    type V = TaskCheckpointFinishedView;

    open spec fn view(&self) -> TaskCheckpointFinishedView {
        TaskCheckpointFinishedView {
            time_micros: self.time_micros,
            operator_id: self.operator_id@,
            subtask_index: self.subtask_index,
            epoch: self.epoch,
            committing_data: self.committing_data.deep_view(),
        }
    }
}

/// Completion table for one operator during the checkpointing phase: one slot
/// per subtask, plus the log of progress reports received for the operator.
#[derive(Debug)]
pub struct OperatorCheckpointState {
    pub operator_id: String,
    pub parallelism: u32,
    pub finished_subtasks: Vec<bool>,
    pub committing_data: Vec<Option<Vec<u8>>>,
    pub events: Vec<TaskCheckpointEvent>,
}

/// Ghost shape of one operator's completion table.
pub struct OperatorCheckpointStateView {
    pub operator_id: Seq<char>,
    pub parallelism: u32,
    pub finished_subtasks: Seq<bool>,
    pub committing_data: Seq<Option<Seq<u8>>>,
    pub events: Seq<TaskCheckpointEventView>,
}

impl View for OperatorCheckpointState {
    type V = OperatorCheckpointStateView;

    open spec fn view(&self) -> OperatorCheckpointStateView {
        OperatorCheckpointStateView {
            operator_id: self.operator_id@,
            parallelism: self.parallelism,
            finished_subtasks: self.finished_subtasks@,
            committing_data: self.committing_data.deep_view(),
            events: self.events.deep_view(),
        }
    }
}

impl DeepView for OperatorCheckpointState {
    type V = OperatorCheckpointStateView;

    open spec fn deep_view(&self) -> OperatorCheckpointStateView {
        self.view()
    }
}

impl OperatorCheckpointStateView {
    /// One slot of each kind per subtask.
    pub open spec fn wf(self) -> bool {
        &&& self.finished_subtasks.len() == self.parallelism
        &&& self.committing_data.len() == self.parallelism
    }

    /// Every subtask of the operator has reported its snapshot durable.
    pub open spec fn done(self) -> bool {
        forall|i: int| 0 <= i < self.finished_subtasks.len() ==> self.finished_subtasks[i]
    }

    /// The operator has declared two-phase commit work.
    pub open spec fn declares_commit(self) -> bool {
        exists|i: int| 0 <= i < self.committing_data.len() && self.committing_data[i] is Some
    }

    /// The table after one checkpoint-finished report for this operator.
    pub open spec fn spec_mark_finished(self, f: TaskCheckpointFinishedView) -> Self {
        OperatorCheckpointStateView {
            finished_subtasks: self.finished_subtasks.update(f.subtask_index as int, true),
            committing_data: self.committing_data.update(
                f.subtask_index as int,
                f.committing_data,
            ),
            ..self
        }
    }
}

/// Book-keeping for one epoch's checkpointing phase, owned by the running-job
/// model while barriers are in flight.
#[derive(Debug)]
pub struct CheckpointState {
    pub checkpoint_id: String,
    pub epoch: u32,
    pub min_epoch: u32,
    pub start_time_micros: u64,
    pub operators: Vec<OperatorCheckpointState>,
}

/// Ghost shape of the checkpointing phase.
pub struct CheckpointStateView {
    pub checkpoint_id: Seq<char>,
    pub epoch: u32,
    pub min_epoch: u32,
    pub start_time_micros: u64,
    pub operators: Seq<OperatorCheckpointStateView>,
}

impl View for CheckpointState {
    type V = CheckpointStateView;

    open spec fn view(&self) -> CheckpointStateView {
        CheckpointStateView {
            checkpoint_id: self.checkpoint_id@,
            epoch: self.epoch,
            min_epoch: self.min_epoch,
            start_time_micros: self.start_time_micros,
            operators: self.operators.deep_view(),
        }
    }
}

/// Index of the operator with the given id in the table, if any.
pub open spec fn spec_find_operator(
    ops: Seq<OperatorCheckpointStateView>,
    id: Seq<char>,
) -> Option<int> {
    find_first(ops, |o: OperatorCheckpointStateView| o.operator_id == id)
}

impl CheckpointStateView {
    /// Operator entries are well formed and name distinct operators.
    pub open spec fn wf(self) -> bool {
        &&& forall|i: int| 0 <= i < self.operators.len() ==> (#[trigger] self.operators[i]).wf()
        &&& forall|i: int, j: int|
            0 <= i < j < self.operators.len() ==> self.operators[i].operator_id
                != self.operators[j].operator_id
    }

    /// Every operator has every subtask finished.
    pub open spec fn done(self) -> bool {
        forall|i: int| 0 <= i < self.operators.len() ==> (#[trigger] self.operators[i]).done()
    }

    /// The state after recording one progress report. Reports whose operator
    /// is unknown or whose subtask index is out of range are dropped, as is a
    /// commit acknowledgement, which belongs to the commit phase.
    pub open spec fn spec_record_event(self, c: TaskCheckpointEventView) -> Self {
        if c.event_type is FinishedCommit {
            self
        } else {
            match spec_find_operator(self.operators, c.operator_id) {
                Some(i) => {
                    if c.subtask_index < self.operators[i].parallelism {
                        CheckpointStateView {
                            operators: self.operators.update(
                                i,
                                OperatorCheckpointStateView {
                                    events: self.operators[i].events.push(c),
                                    ..self.operators[i]
                                },
                            ),
                            ..self
                        }
                    } else {
                        self
                    }
                },
                None => self,
            }
        }
    }

    /// The state after one checkpoint-finished report. Unknown operators and
    /// out-of-range subtask indices are dropped.
    pub open spec fn spec_record_finished(self, f: TaskCheckpointFinishedView) -> Self {
        match spec_find_operator(self.operators, f.operator_id) {
            Some(i) => {
                if f.subtask_index < self.operators[i].parallelism {
                    CheckpointStateView {
                        operators: self.operators.update(
                            i,
                            self.operators[i].spec_mark_finished(f),
                        ),
                        ..self
                    }
                } else {
                    self
                }
            },
            None => self,
        }
    }
}

/// A fresh (nothing reported) completion table for one operator.
pub open spec fn spec_fresh_operator(
    id: Seq<char>,
    parallelism: u32,
) -> OperatorCheckpointStateView {
    OperatorCheckpointStateView {
        operator_id: id,
        parallelism: parallelism,
        finished_subtasks: Seq::new(parallelism as nat, |i: int| false),
        committing_data: Seq::new(parallelism as nat, |i: int| None),
        events: Seq::empty(),
    }
}

/// The fresh completion tables of one node: one per operator of its chain.
pub open spec fn spec_node_operators(n: crate::program::LogicalNodeView) -> Seq<
    OperatorCheckpointStateView,
> {
    Seq::new(
        n.operator_chain.len(),
        |j: int| spec_fresh_operator(n.operator_chain[j], n.parallelism),
    )
}

/// The fresh completion tables of a whole program, in graph order.
pub open spec fn spec_program_operators(nodes: Seq<crate::program::LogicalNodeView>) -> Seq<
    OperatorCheckpointStateView,
>
    decreases nodes.len(),
{
    if nodes.len() == 0 {
        Seq::empty()
    } else {
        spec_program_operators(nodes.drop_last()) + spec_node_operators(nodes.last())
    }
}

/// An all-`false` slot vector with one entry per subtask.
fn bool_slots(parallelism: u32) -> (r: Vec<bool>)
    ensures
        r@ == Seq::new(parallelism as nat, |i: int| false),
{
    let mut r: Vec<bool> = Vec::new();
    let mut k: u32 = 0;
    while k < parallelism
        invariant
            k <= parallelism,
            r@ =~= Seq::new(k as nat, |i: int| false),
        decreases parallelism - k,
    {
        r.push(false);
        k = k + 1;
    }
    proof {
        assert(r@ =~= Seq::new(parallelism as nat, |i: int| false));
    }
    r
}

/// An all-empty commit-payload vector with one entry per subtask.
fn commit_slots(parallelism: u32) -> (r: Vec<Option<Vec<u8>>>)
    ensures
        r.deep_view() == Seq::new(parallelism as nat, |i: int| None::<Seq<u8>>),
{
    let mut r: Vec<Option<Vec<u8>>> = Vec::new();
    let mut k: u32 = 0;
    while k < parallelism
        invariant
            k <= parallelism,
            r@.len() == k,
            r.deep_view() =~= Seq::new(k as nat, |i: int| None::<Seq<u8>>),
        decreases parallelism - k,
    {
        let ghost prev = r@;
        r.push(None);
        k = k + 1;
        proof {
            assert forall|i2: int| 0 <= i2 < r@.len() implies r.deep_view()[i2] == Seq::new(
                k as nat,
                |i: int| None::<Seq<u8>>,
            )[i2] by {
                assert(r.deep_view()[i2] == r@[i2].deep_view());
                if i2 < prev.len() {
                    assert(r@[i2] == prev[i2]);
                    assert(prev[i2].deep_view() == Seq::new(
                        (k - 1) as nat,
                        |i: int| None::<Seq<u8>>,
                    )[i2]);
                } else {
                    assert(r@[i2] == None::<Vec<u8>>);
                }
            }
            assert(r.deep_view() =~= Seq::new(k as nat, |i: int| None::<Seq<u8>>));
        }
    }
    proof {
        assert(r.deep_view() =~= Seq::new(parallelism as nat, |i: int| None::<Seq<u8>>));
    }
    r
}

/// A fresh completion table for one operator.
fn fresh_operator(operator_id: String, parallelism: u32) -> (r: OperatorCheckpointState)
    ensures
        r@ == spec_fresh_operator(operator_id@, parallelism),
{
    let r = OperatorCheckpointState {
        operator_id,
        parallelism,
        finished_subtasks: bool_slots(parallelism),
        committing_data: commit_slots(parallelism),
        events: Vec::new(),
    };
    proof {
        assert(r@.events =~= Seq::<TaskCheckpointEventView>::empty());
    }
    r
}

impl CheckpointState {
    /// A coordinator for one fresh epoch, with one completion table per
    /// operator of the program and nothing reported yet.
    pub fn new(
        checkpoint_id: String,
        epoch: u32,
        min_epoch: u32,
        start_time_micros: u64,
        program: &LogicalProgram,
    ) -> (r: Self)
        ensures
            r@ == (CheckpointStateView {
                checkpoint_id: checkpoint_id@,
                epoch,
                min_epoch,
                start_time_micros,
                operators: spec_program_operators(program@),
            }),
    {
        let mut operators: Vec<OperatorCheckpointState> = Vec::new();
        let n = program.nodes.len();
        for i in 0..n
            invariant
                n == program.nodes.len(),
                operators.deep_view() == spec_program_operators(program@.take(i as int)),
        {
            let node = &program.nodes[i];
            let m = node.operator_chain.len();
            let ghost ops_before = operators.deep_view();
            for j in 0..m
                invariant
                    m == node.operator_chain.len(),
                    0 <= i < program.nodes@.len(),
                    *node == program.nodes@[i as int],
                    operators.deep_view() =~= ops_before + spec_node_operators(node@).take(
                        j as int,
                    ),
            {
                let op = fresh_operator(
                    node.operator_chain[j].operator_id.clone(),
                    node.parallelism,
                );
                proof {
                    assert(node@.operator_chain[j as int] == node.operator_chain@[
                        j as int
                    ].deep_view());
                }
                let ghost prev_ops = operators@;
                let ghost prev_deep = operators.deep_view();
                operators.push(op);
                proof {
                    let node_ops = spec_node_operators(node@);
                    let target = ops_before + node_ops.take(j + 1);
                    assert(prev_deep == ops_before + node_ops.take(j as int));
                    assert(prev_deep.len() == ops_before.len() + j);
                    assert forall|x: int| 0 <= x < operators@.len() implies operators.deep_view()[x]
                        == target[x] by {
                        assert(operators.deep_view()[x] == operators@[x].deep_view());
                        if x < prev_ops.len() {
                            assert(operators@[x] == prev_ops[x]);
                            assert(prev_ops[x].deep_view() == prev_deep[x]);
                            if x < ops_before.len() {
                                assert(target[x] == ops_before[x]);
                                assert(prev_deep[x] == ops_before[x]);
                            } else {
                                assert(target[x] == node_ops.take(j + 1)[x - ops_before.len()]);
                                assert(prev_deep[x] == node_ops.take(j as int)[x
                                    - ops_before.len()]);
                                assert(node_ops.take(j + 1)[x - ops_before.len()] == node_ops[x
                                    - ops_before.len()]);
                                assert(node_ops.take(j as int)[x - ops_before.len()] == node_ops[x
                                    - ops_before.len()]);
                            }
                        } else {
                            assert(x == prev_ops.len());
                            assert(operators@[x] == op);
                            assert(op.deep_view() == spec_fresh_operator(
                                node@.operator_chain[j as int],
                                node@.parallelism,
                            ));
                            assert(target[x] == node_ops.take(j + 1)[j as int]);
                            assert(node_ops.take(j + 1)[j as int] == node_ops[j as int]);
                        }
                    }
                    assert(operators.deep_view() =~= target);
                }
            }
            proof {
                assert(spec_node_operators(node@).take(m as int) =~= spec_node_operators(node@));
                assert(program@.take(i + 1).drop_last() =~= program@.take(i as int));
                assert(program@.take(i + 1).last() == program@[i as int]);
                assert(node@ == program@[i as int]);
                assert(operators.deep_view() =~= spec_program_operators(program@.take(i + 1)));
            }
        }
        proof {
            assert(program@.take(n as int) =~= program@);
        }
        let r = CheckpointState { checkpoint_id, epoch, min_epoch, start_time_micros, operators };
        r
    }

    /// Index of the operator with the given id, if any.
    fn find_operator(&self, id: &String) -> (r: Option<usize>)
        ensures
            match r {
                Some(i) => i < self@.operators.len() && spec_find_operator(self@.operators, id@)
                    == Some(i as int),
                None => spec_find_operator(self@.operators, id@) is None,
            },
    {
        let n = self.operators.len();
        for i in 0..n
            invariant
                n == self.operators.len(),
                forall|j: int| 0 <= j < i ==> (#[trigger] self@.operators[j]).operator_id != id@,
        {
            if self.operators[i].operator_id.eq(id) {
                proof {
                    crate::lemma_find_first_at(
                        self@.operators,
                        |o: OperatorCheckpointStateView| o.operator_id == id@,
                        i as int,
                    );
                }
                return Some(i);
            }
        }
        proof {
            crate::lemma_find_first_none(
                self@.operators,
                |o: OperatorCheckpointStateView| o.operator_id == id@,
            );
        }
        None
    }

    /// Every operator has every subtask finished.
    pub fn done(&self) -> (r: bool)
        ensures
            r == self@.done(),
    {
        let n = self.operators.len();
        for i in 0..n
            invariant
                n == self.operators.len(),
                forall|j: int| 0 <= j < i ==> (#[trigger] self@.operators[j]).done(),
        {
            let op = &self.operators[i];
            let p = op.finished_subtasks.len();
            for k in 0..p
                invariant
                    p == op.finished_subtasks.len(),
                    0 <= i < self.operators@.len(),
                    *op == self.operators@[i as int],
                    forall|x: int| 0 <= x < k ==> op.finished_subtasks@[x],
            {
                if !op.finished_subtasks[k] {
                    assert(self@.operators[i as int].finished_subtasks[k as int] == false);
                    assert(!self@.operators[i as int].done());
                    return false;
                }
            }
            assert((self@.operators[i as int]).done());
        }
        true
    }

    /// Record one progress report in the operator's event log. Commit
    /// acknowledgements are dropped here because they belong to the commit
    /// phase, as are reports for unknown operators or out-of-range subtasks.
    pub fn checkpoint_event(&mut self, c: TaskCheckpointEvent)
        ensures
            final(self)@ == old(self)@.spec_record_event(c@),
    {
        if matches!(c.event_type, TaskCheckpointEventType::FinishedCommit) {
            return ;
        }
        let found = self.find_operator(&c.operator_id);
        if let Some(i) = found {
            if c.subtask_index < self.operators[i].parallelism {
                let ghost before = self@;
                let ghost cv = c@;
                let op = &mut self.operators[i];
                op.events.push(c);
                proof {
                    let ii = i as int;
                    let updated = OperatorCheckpointStateView {
                        events: before.operators[ii].events.push(cv),
                        ..before.operators[ii]
                    };
                    assert(self@.operators[ii].events =~= updated.events);
                    assert(self@.operators[ii] == updated);
                    assert(self@.operators =~= before.operators.update(ii, updated));
                }
            }
        }
    }

    /// Record one checkpoint-finished report: the subtask's slot is marked
    /// finished and its declared commit payload stored, latest report wins.
    pub fn checkpoint_finished(&mut self, f: TaskCheckpointFinished)
        requires
            old(self)@.wf(),
        ensures
            final(self)@ == old(self)@.spec_record_finished(f@),
            final(self)@.wf(),
    {
        let found = self.find_operator(&f.operator_id);
        if let Some(i) = found {
            if f.subtask_index < self.operators[i].parallelism {
                let ghost before = self@;
                let ghost fv = f@;
                let idx = f.subtask_index as usize;
                assert(before.operators[i as int].wf());
                let op = &mut self.operators[i];
                op.finished_subtasks[idx] = true;
                op.committing_data[idx] = f.committing_data;
                proof {
                    let ii = i as int;
                    let marked = before.operators[ii].spec_mark_finished(fv);
                    assert(self@.operators[ii].finished_subtasks =~= marked.finished_subtasks);
                    assert(self@.operators[ii].committing_data =~= marked.committing_data);
                    assert(self@.operators[ii] == marked);
                    assert(self@.operators =~= before.operators.update(ii, marked));
                    assert(self@ == before.spec_record_finished(fv));
                    assert(self@.wf());
                }
            }
        }
    }
}

/// Copy of a byte payload.
fn clone_bytes(v: &Vec<u8>) -> (r: Vec<u8>)
    ensures
        r@ == v@,
{
    let mut r: Vec<u8> = Vec::new();
    let n = v.len();
    for i in 0..n
        invariant
            n == v.len(),
            r@ =~= v@.take(i as int),
    {
        r.push(v[i]);
        proof {
            assert(r@ =~= v@.take(i + 1));
        }
    }
    proof {
        assert(v@.take(n as int) =~= v@);
    }
    r
}

/// One subtask that still owes a commit acknowledgement.
#[derive(Clone, Debug, PartialEq, Eq)]
pub struct CommitSubtask {
    pub operator_id: String,
    pub subtask_index: u32,
}

/// Ghost shape of one owed commit acknowledgement.
pub struct CommitSubtaskView {
    pub operator_id: Seq<char>,
    pub subtask_index: u32,
}

impl View for CommitSubtask {
    type V = CommitSubtaskView;

    open spec fn view(&self) -> CommitSubtaskView {
        CommitSubtaskView { operator_id: self.operator_id@, subtask_index: self.subtask_index }
    }
}

impl DeepView for CommitSubtask {
    type V = CommitSubtaskView;

    open spec fn deep_view(&self) -> CommitSubtaskView {
        self.view()
    }
}

/// The opaque commit payload one operator declared.
#[derive(Clone, Debug, PartialEq, Eq)]
pub struct CommitOperatorData {
    pub operator_id: String,
    pub data: Vec<u8>,
}

/// Ghost shape of one operator's commit payload.
pub struct CommitOperatorDataView {
    pub operator_id: Seq<char>,
    pub data: Seq<u8>,
}

impl View for CommitOperatorData {
    type V = CommitOperatorDataView;

    open spec fn view(&self) -> CommitOperatorDataView {
        CommitOperatorDataView { operator_id: self.operator_id@, data: self.data@ }
    }
}

impl DeepView for CommitOperatorData {
    type V = CommitOperatorDataView;

    open spec fn deep_view(&self) -> CommitOperatorDataView {
        self.view()
    }
}

/// Book-keeping for one epoch's commit phase: the payloads to hand to the
/// workers and the set of subtasks whose acknowledgement is still owed.
#[derive(Debug)]
pub struct CommittingState {
    pub checkpoint_id: String,
    pub commit_data: Vec<CommitOperatorData>,
    pub subtasks_to_commit: Vec<CommitSubtask>,
    pub committed: Vec<bool>,
}

/// Ghost shape of the commit phase.
pub struct CommittingStateView {
    pub checkpoint_id: Seq<char>,
    pub commit_data: Seq<CommitOperatorDataView>,
    pub subtasks_to_commit: Seq<CommitSubtaskView>,
    pub committed: Seq<bool>,
}

impl View for CommittingState {
    type V = CommittingStateView;

    open spec fn view(&self) -> CommittingStateView {
        CommittingStateView {
            checkpoint_id: self.checkpoint_id@,
            commit_data: self.commit_data.deep_view(),
            subtasks_to_commit: self.subtasks_to_commit.deep_view(),
            committed: self.committed@,
        }
    }
}

impl CommittingStateView {
    /// One acknowledgement slot per owed subtask.
    pub open spec fn wf(self) -> bool {
        self.committed.len() == self.subtasks_to_commit.len()
    }

    /// Every owed subtask has acknowledged its commit.
    pub open spec fn done(self) -> bool {
        forall|i: int| 0 <= i < self.committed.len() ==> self.committed[i]
    }

    /// The state after one commit acknowledgement from `(operator_id,
    /// subtask_index)`: every matching slot is marked, and marking is
    /// idempotent.
    pub open spec fn spec_subtask_committed(self, operator_id: Seq<char>, subtask_index: u32) -> Self {
        CommittingStateView {
            committed: Seq::new(
                self.committed.len(),
                |i: int|
                    self.committed[i] || (i < self.subtasks_to_commit.len()
                        && self.subtasks_to_commit[i].operator_id == operator_id
                        && self.subtasks_to_commit[i].subtask_index == subtask_index),
            ),
            ..self
        }
    }
}

/// The subtasks whose commit acknowledgement has arrived, in table order.
pub open spec fn spec_acknowledged(
    subtasks: Seq<CommitSubtaskView>,
    committed: Seq<bool>,
) -> Seq<CommitSubtaskView>
    decreases subtasks.len(),
{
    if subtasks.len() == 0 {
        Seq::empty()
    } else {
        spec_acknowledged(subtasks.drop_last(), committed.drop_last()) + (if committed[subtasks.len()
            - 1] {
            seq![subtasks.last()]
        } else {
            Seq::empty()
        })
    }
}

impl CommittingState {
    /// The subtasks that have acknowledged their commit so far, for the
    /// persisted commit-progress snapshot.
    pub fn committed_subtasks(&self) -> (r: Vec<CommitSubtask>)
        requires
            self@.wf(),
        ensures
            r.deep_view() == spec_acknowledged(self@.subtasks_to_commit, self@.committed),
    {
        let mut r: Vec<CommitSubtask> = Vec::new();
        let n = self.subtasks_to_commit.len();
        for i in 0..n
            invariant
                n == self.subtasks_to_commit.len(),
                self.committed@.len() == n,
                r.deep_view() =~= spec_acknowledged(
                    self@.subtasks_to_commit.take(i as int),
                    self@.committed.take(i as int),
                ),
        {
            proof {
                assert(self@.subtasks_to_commit[i as int] == self.subtasks_to_commit@[
                    i as int
                ].deep_view());
            }
            if self.committed[i] {
                let st = &self.subtasks_to_commit[i];
                let item = CommitSubtask {
                    operator_id: st.operator_id.clone(),
                    subtask_index: st.subtask_index,
                };
                let ghost prev = r@;
                let ghost prev_deep = r.deep_view();
                r.push(item);
                proof {
                    crate::lemma_vec_deep_view_push(prev, prev_deep, r, item);
                    assert(item@ == self@.subtasks_to_commit[i as int]);
                }
            }
            proof {
                let subs = self@.subtasks_to_commit;
                let flags = self@.committed;
                assert(subs.take(i + 1).drop_last() =~= subs.take(i as int));
                assert(flags.take(i + 1).drop_last() =~= flags.take(i as int));
                assert(subs.take(i + 1).last() == subs[i as int]);
                assert(flags.take(i + 1)[subs.take(i + 1).len() - 1] == flags[i as int]);
                assert(r.deep_view() =~= spec_acknowledged(subs.take(i + 1), flags.take(i + 1)));
            }
        }
        proof {
            assert(self@.subtasks_to_commit.take(n as int) =~= self@.subtasks_to_commit);
            assert(self@.committed.take(n as int) =~= self@.committed);
        }
        r
    }

    /// The checkpoint row this commit phase belongs to.
    pub fn checkpoint_id(&self) -> (r: &String)
        ensures
            r@ == self@.checkpoint_id,
    {
        &self.checkpoint_id
    }

    /// Every owed subtask has acknowledged.
    pub fn done(&self) -> (r: bool)
        ensures
            r == self@.done(),
    {
        let n = self.committed.len();
        for i in 0..n
            invariant
                n == self.committed.len(),
                forall|j: int| 0 <= j < i ==> self.committed@[j],
        {
            if !self.committed[i] {
                assert(self@.committed[i as int] == false);
                return false;
            }
        }
        true
    }

    /// The per-operator payloads for the workers' commit requests.
    pub fn committing_data(&self) -> (r: Vec<CommitOperatorData>)
        ensures
            r.deep_view() == self@.commit_data,
    {
        let mut r: Vec<CommitOperatorData> = Vec::new();
        let n = self.commit_data.len();
        for i in 0..n
            invariant
                n == self.commit_data.len(),
                r.deep_view() =~= self@.commit_data.take(i as int),
        {
            let item = &self.commit_data[i];
            let copy = CommitOperatorData {
                operator_id: item.operator_id.clone(),
                data: clone_bytes(&item.data),
            };
            proof {
                assert(copy@ == self.commit_data@[i as int]@);
                assert(self.commit_data@[i as int]@ == self@.commit_data[i as int]);
            }
            let ghost prev = r@;
            let ghost prev_deep = r.deep_view();
            r.push(copy);
            proof {
                assert(prev_deep == self@.commit_data.take(i as int));
                assert(prev_deep.len() == prev.len());
                assert(prev.len() == i);
                assert(r@ == prev.push(copy));
                assert forall|x: int| 0 <= x < r@.len() implies r.deep_view()[x]
                    == self@.commit_data.take(i + 1)[x] by {
                    assert(r.deep_view()[x] == r@[x].deep_view());
                    assert(self@.commit_data.take(i + 1)[x] == self@.commit_data[x]);
                    if x < prev.len() {
                        assert(r@[x] == prev[x]);
                        assert(prev[x].deep_view() == prev_deep[x]);
                        assert(prev_deep[x] == self@.commit_data.take(i as int)[x]);
                        assert(self@.commit_data.take(i as int)[x] == self@.commit_data[x]);
                    } else {
                        assert(x == i);
                        assert(r@[x] == copy);
                        assert(copy.deep_view() == copy@);
                        assert(copy@ == self@.commit_data[i as int]);
                    }
                }
                assert(r.deep_view() =~= self@.commit_data.take(i + 1));
            }
        }
        proof {
            assert(self@.commit_data.take(n as int) =~= self@.commit_data);
        }
        r
    }

    /// Record that `(operator_id, subtask_index)` has committed. A repeated
    /// acknowledgement leaves the state unchanged.
    pub fn subtask_committed(&mut self, operator_id: &String, subtask_index: u32)
        requires
            old(self)@.wf(),
        ensures
            final(self)@ == old(self)@.spec_subtask_committed(operator_id@, subtask_index),
            final(self)@.wf(),
    {
        let n = self.subtasks_to_commit.len();
        let ghost target = old(self)@.spec_subtask_committed(operator_id@, subtask_index);
        for i in 0..n
            invariant
                n == self.subtasks_to_commit.len(),
                self.committed@.len() == n,
                old(self).committed@.len() == n,
                target == old(self)@.spec_subtask_committed(operator_id@, subtask_index),
                self@.subtasks_to_commit == old(self)@.subtasks_to_commit,
                self@.checkpoint_id == old(self)@.checkpoint_id,
                self@.commit_data == old(self)@.commit_data,
                forall|j: int| 0 <= j < i ==> self.committed@[j] == target.committed[j],
                forall|j: int| i <= j < n ==> self.committed@[j] == old(self).committed@[j],
        {
            let st = &self.subtasks_to_commit[i];
            proof {
                assert(self@.subtasks_to_commit[i as int] == self.subtasks_to_commit@[
                    i as int
                ].deep_view());
            }
            let matched = st.operator_id.eq(operator_id) && st.subtask_index == subtask_index;
            if matched {
                self.committed[i] = true;
            }
            proof {
                let ii = i as int;
                assert(target.committed[ii] == (old(self).committed@[ii] || (old(
                    self,
                )@.subtasks_to_commit[ii].operator_id == operator_id@ && old(
                    self,
                )@.subtasks_to_commit[ii].subtask_index == subtask_index)));
                assert(self.committed@[ii] == target.committed[ii]);
            }
        }
        proof {
            assert(self@.committed =~= target.committed);
        }
    }
}

/// The first declared commit payload among an operator's subtask slots, used
/// as that operator's payload for the commit request.
pub open spec fn spec_first_commit_payload(slots: Seq<Option<Seq<u8>>>) -> Seq<u8> {
    match find_first(slots, |d: Option<Seq<u8>>| d is Some) {
        Some(i) => match slots[i] {
            Some(d) => d,
            None => Seq::empty(),
        },
        None => Seq::empty(),
    }
}

/// The commit payload entries derived from the completion tables: one per
/// operator that declared commit work, in table order.
pub open spec fn spec_committing_ops(ops: Seq<OperatorCheckpointStateView>) -> Seq<
    CommitOperatorDataView,
>
    decreases ops.len(),
{
    if ops.len() == 0 {
        Seq::empty()
    } else {
        spec_committing_ops(ops.drop_last()) + (if ops.last().declares_commit() {
            seq![
                CommitOperatorDataView {
                    operator_id: ops.last().operator_id,
                    data: spec_first_commit_payload(ops.last().committing_data),
                },
            ]
        } else {
            Seq::empty()
        })
    }
}

/// Every subtask of one committing operator owes an acknowledgement.
pub open spec fn spec_commit_subtasks_of(o: OperatorCheckpointStateView) -> Seq<CommitSubtaskView> {
    Seq::new(
        o.parallelism as nat,
        |k: int| CommitSubtaskView { operator_id: o.operator_id, subtask_index: k as u32 },
    )
}

/// The owed acknowledgements derived from the completion tables.
pub open spec fn spec_committing_subtasks(ops: Seq<OperatorCheckpointStateView>) -> Seq<
    CommitSubtaskView,
>
    decreases ops.len(),
{
    if ops.len() == 0 {
        Seq::empty()
    } else {
        spec_committing_subtasks(ops.drop_last()) + (if ops.last().declares_commit() {
            spec_commit_subtasks_of(ops.last())
        } else {
            Seq::empty()
        })
    }
}

impl CheckpointState {
    /// Index of the first declared commit payload of one operator, if any.
    fn first_commit_slot(op: &OperatorCheckpointState) -> (r: Option<usize>)
        ensures
            match r {
                Some(i) => i < op@.committing_data.len() && find_first(
                    op@.committing_data,
                    |d: Option<Seq<u8>>| d is Some,
                ) == Some(i as int),
                None => find_first(op@.committing_data, |d: Option<Seq<u8>>| d is Some) is None,
            },
    {
        let n = op.committing_data.len();
        for i in 0..n
            invariant
                n == op.committing_data.len(),
                forall|j: int| 0 <= j < i ==> !((#[trigger] op@.committing_data[j]) is Some),
        {
            proof {
                assert(op@.committing_data[i as int] == op.committing_data@[i as int].deep_view());
            }
            if op.committing_data[i].is_some() {
                proof {
                    crate::lemma_find_first_at(
                        op@.committing_data,
                        |d: Option<Seq<u8>>| d is Some,
                        i as int,
                    );
                }
                return Some(i);
            }
        }
        proof {
            crate::lemma_find_first_none(op@.committing_data, |d: Option<Seq<u8>>| d is Some);
        }
        None
    }

    /// The commit phase derived from the completion tables: every operator
    /// that declared commit work contributes its payload, and each of its
    /// subtasks owes one acknowledgement, none given yet.
    pub fn committing_state(&self) -> (r: CommittingState)
        ensures
            r@.checkpoint_id == self@.checkpoint_id,
            r@.commit_data == spec_committing_ops(self@.operators),
            r@.subtasks_to_commit == spec_committing_subtasks(self@.operators),
            r@.committed == Seq::new(
                spec_committing_subtasks(self@.operators).len(),
                |i: int| false,
            ),
            r@.wf(),
            r@.done() <==> spec_committing_subtasks(self@.operators).len() == 0,
    {
        let mut commit_data: Vec<CommitOperatorData> = Vec::new();
        let mut subtasks_to_commit: Vec<CommitSubtask> = Vec::new();
        let mut committed: Vec<bool> = Vec::new();
        let n = self.operators.len();
        for i in 0..n
            invariant
                n == self.operators.len(),
                commit_data.deep_view() == spec_committing_ops(self@.operators.take(i as int)),
                subtasks_to_commit.deep_view() == spec_committing_subtasks(
                    self@.operators.take(i as int),
                ),
                committed@.len() == subtasks_to_commit@.len(),
                forall|j: int| 0 <= j < committed@.len() ==> !committed@[j],
        {
            let op = &self.operators[i];
            proof {
                assert(op@ == self@.operators[i as int]);
            }
            let first = Self::first_commit_slot(op);
            proof {
                crate::lemma_find_first_some(
                    op@.committing_data,
                    |d: Option<Seq<u8>>| d is Some,
                );
                match first {
                    Some(fi) => assert(op@.declares_commit()),
                    None => assert(!op@.declares_commit()),
                }
            }
            if let Some(fi) = first {
                let payload = match &op.committing_data[fi] {
                    Some(d) => clone_bytes(d),
                    None => Vec::new(),
                };
                proof {
                    assert(op@.committing_data[fi as int] == op.committing_data@[
                        fi as int
                    ].deep_view());
                    assert(payload@ == spec_first_commit_payload(op@.committing_data));
                }
                let entry = CommitOperatorData {
                    operator_id: op.operator_id.clone(),
                    data: payload,
                };
                let ghost prev_cd = commit_data@;
                let ghost prev_cd_deep = commit_data.deep_view();
                commit_data.push(entry);
                proof {
                    crate::lemma_vec_deep_view_push(prev_cd, prev_cd_deep, commit_data, entry);
                }
                let ghost sub_target = spec_commit_subtasks_of(op@);
                let mut k: u32 = 0;
                let ghost subs_before = subtasks_to_commit.deep_view();
                while k < op.parallelism
                    invariant
                        k <= op.parallelism,
                        sub_target == spec_commit_subtasks_of(op@),
                        subtasks_to_commit.deep_view() == subs_before + sub_target.take(k as int),
                        committed@.len() == subtasks_to_commit@.len(),
                        forall|j: int| 0 <= j < committed@.len() ==> !committed@[j],
                    decreases op.parallelism - k,
                {
                    let item = CommitSubtask {
                        operator_id: op.operator_id.clone(),
                        subtask_index: k,
                    };
                    let ghost prev_s = subtasks_to_commit@;
                    let ghost prev_s_deep = subtasks_to_commit.deep_view();
                    subtasks_to_commit.push(item);
                    committed.push(false);
                    k = k + 1;
                    proof {
                        crate::lemma_vec_deep_view_push(
                            prev_s,
                            prev_s_deep,
                            subtasks_to_commit,
                            item,
                        );
                        assert(item@ == sub_target[k - 1]);
                        assert(subs_before + sub_target.take(k as int) =~= (subs_before
                            + sub_target.take(k - 1)).push(sub_target[k - 1]));
                    }
                }
                proof {
                    assert(sub_target.take(op.parallelism as int) =~= sub_target);
                }
            }
            proof {
                let taken = self@.operators.take(i + 1);
                assert(taken.drop_last() =~= self@.operators.take(i as int));
                assert(taken.last() == self@.operators[i as int]);
                assert(commit_data.deep_view() == spec_committing_ops(taken));
                assert(subtasks_to_commit.deep_view() == spec_committing_subtasks(taken));
            }
        }
        proof {
            assert(self@.operators.take(n as int) =~= self@.operators);
        }
        let r = CommittingState {
            checkpoint_id: self.checkpoint_id.clone(),
            commit_data,
            subtasks_to_commit,
            committed,
        };
        proof {
            assert(r@.committed =~= Seq::new(
                spec_committing_subtasks(self@.operators).len(),
                |i: int| false,
            ));
            if r@.committed.len() > 0 {
                assert(!r@.committed[0]);
                assert(!r@.done());
            }
        }
        r
    }
}

/// A job's in-flight coordination: the checkpointing phase, or the commit
/// phase that may follow it. The closed set of two arms is part of the
/// protocol's correctness argument.
#[derive(Debug)]
pub enum CheckpointingOrCommittingState {
    Checkpointing(CheckpointState),
    Committing(CommittingState),
}

/// Ghost shape of the in-flight coordination.
pub enum CheckpointingOrCommittingStateView {
    Checkpointing(CheckpointStateView),
    Committing(CommittingStateView),
}

impl View for CheckpointingOrCommittingState {
    type V = CheckpointingOrCommittingStateView;

    open spec fn view(&self) -> CheckpointingOrCommittingStateView {
        match self {
            CheckpointingOrCommittingState::Checkpointing(c) => {
                CheckpointingOrCommittingStateView::Checkpointing(c@)
            },
            CheckpointingOrCommittingState::Committing(c) => {
                CheckpointingOrCommittingStateView::Committing(c@)
            },
        }
    }
}

impl CheckpointingOrCommittingStateView {
    /// The phase's slots are well formed.
    pub open spec fn wf(self) -> bool {
        match self {
            CheckpointingOrCommittingStateView::Checkpointing(c) => c.wf(),
            CheckpointingOrCommittingStateView::Committing(c) => c.wf(),
        }
    }

    /// The phase has nothing left to wait for.
    pub open spec fn done(self) -> bool {
        match self {
            CheckpointingOrCommittingStateView::Checkpointing(c) => c.done(),
            CheckpointingOrCommittingStateView::Committing(c) => c.done(),
        }
    }
}

impl CheckpointingOrCommittingState {
    /// Whether the current phase has nothing left to wait for.
    pub fn done(&self) -> (r: bool)
        ensures
            r == self@.done(),
    {
        match self {
            CheckpointingOrCommittingState::Checkpointing(checkpointing) => checkpointing.done(),
            CheckpointingOrCommittingState::Committing(committing) => committing.done(),
        }
    }
}

/// Recording a progress report never harms the table's well-formedness.
pub proof fn lemma_record_event_preserves_wf(cs: CheckpointStateView, c: TaskCheckpointEventView)
    requires
        cs.wf(),
    ensures
        cs.spec_record_event(c).wf(),
{
    let r = cs.spec_record_event(c);
    let p = |o: OperatorCheckpointStateView| o.operator_id == c.operator_id;
    if !(c.event_type is FinishedCommit) {
        match find_first(cs.operators, p) {
            Some(i) => {
                crate::lemma_find_first_some(cs.operators, p);
                assert forall|x: int| 0 <= x < r.operators.len() implies (
                #[trigger] r.operators[x]).wf()
                    && r.operators[x].operator_id == cs.operators[x].operator_id by {
                    assert(cs.operators[x].wf());
                }
            },
            None => {},
        }
    }
}

/// Recording a checkpoint-finished report never harms well-formedness.
pub proof fn lemma_record_finished_preserves_wf(
    cs: CheckpointStateView,
    f: TaskCheckpointFinishedView,
)
    requires
        cs.wf(),
    ensures
        cs.spec_record_finished(f).wf(),
{
    let r = cs.spec_record_finished(f);
    let p = |o: OperatorCheckpointStateView| o.operator_id == f.operator_id;
    match find_first(cs.operators, p) {
        Some(i) => {
            crate::lemma_find_first_some(cs.operators, p);
            assert forall|x: int| 0 <= x < r.operators.len() implies (
            #[trigger] r.operators[x]).wf()
                && r.operators[x].operator_id == cs.operators[x].operator_id by {
                assert(cs.operators[x].wf());
            }
        },
        None => {},
    }
}

/// Replaying the same checkpoint-finished report leaves the coordination
/// state unchanged: completion updates are idempotent.
pub proof fn lemma_record_finished_idempotent(
    cs: CheckpointStateView,
    f: TaskCheckpointFinishedView,
)
    requires
        cs.wf(),
    ensures
        cs.spec_record_finished(f).spec_record_finished(f) == cs.spec_record_finished(f),
{
    let r1 = cs.spec_record_finished(f);
    let p = |o: OperatorCheckpointStateView| o.operator_id == f.operator_id;
    match find_first(cs.operators, p) {
        None => {},
        Some(i) => {
            crate::lemma_find_first_some(cs.operators, p);
            if f.subtask_index < cs.operators[i].parallelism {
                let marked = cs.operators[i].spec_mark_finished(f);
                assert(r1.operators == cs.operators.update(i, marked));
                assert forall|j: int| 0 <= j < r1.operators.len() implies p(r1.operators[j]) == p(
                    cs.operators[j],
                ) by {
                    if j == i {
                        assert(marked.operator_id == cs.operators[i].operator_id);
                    }
                }
                crate::lemma_find_first_equiv(r1.operators, cs.operators, p);
                assert(find_first(r1.operators, p) == Some(i));
                assert(r1.operators[i] == marked);
                assert(marked.parallelism == cs.operators[i].parallelism);
                let m2 = marked.spec_mark_finished(f);
                assert(m2.finished_subtasks =~= marked.finished_subtasks);
                assert(m2.committing_data =~= marked.committing_data);
                assert(m2 == marked);
                assert(r1.operators.update(i, m2) =~= r1.operators);
                assert(r1.spec_record_finished(f) == r1);
            } else {
                assert(r1 == cs);
            }
        },
    }
}

/// Replaying the same commit acknowledgement leaves the commit phase
/// unchanged: acknowledgement marking is idempotent.
pub proof fn lemma_subtask_committed_idempotent(
    cs: CommittingStateView,
    operator_id: Seq<char>,
    subtask_index: u32,
)
    ensures
        cs.spec_subtask_committed(operator_id, subtask_index).spec_subtask_committed(
            operator_id,
            subtask_index,
        ) == cs.spec_subtask_committed(operator_id, subtask_index),
{
    let r1 = cs.spec_subtask_committed(operator_id, subtask_index);
    let r2 = r1.spec_subtask_committed(operator_id, subtask_index);
    assert(r2.committed =~= r1.committed);
}

/// Copy of the span log.
pub fn clone_spans(v: &Vec<JobCheckpointSpan>) -> (r: Vec<JobCheckpointSpan>)
    ensures
        r@ == v@,
{
    let mut r: Vec<JobCheckpointSpan> = Vec::new();
    let n = v.len();
    for i in 0..n
        invariant
            n == v.len(),
            r@ =~= v@.take(i as int),
    {
        r.push(v[i]);
        proof {
            assert(r@ =~= v@.take(i + 1));
        }
    }
    proof {
        assert(v@.take(n as int) =~= v@);
    }
    r
}

/// Copy of one progress report.
fn clone_event(e: &TaskCheckpointEvent) -> (r: TaskCheckpointEvent)
    ensures
        r@ == e@,
{
    TaskCheckpointEvent {
        time_micros: e.time_micros,
        operator_id: e.operator_id.clone(),
        subtask_index: e.subtask_index,
        epoch: e.epoch,
        event_type: e.event_type,
    }
}

/// Copy of one operator's completion table.
fn clone_operator(o: &OperatorCheckpointState) -> (r: OperatorCheckpointState)
    ensures
        r@ == o@,
{
    let mut finished_subtasks: Vec<bool> = Vec::new();
    let n1 = o.finished_subtasks.len();
    for i in 0..n1
        invariant
            n1 == o.finished_subtasks.len(),
            finished_subtasks@ =~= o.finished_subtasks@.take(i as int),
    {
        finished_subtasks.push(o.finished_subtasks[i]);
        proof {
            assert(finished_subtasks@ =~= o.finished_subtasks@.take(i + 1));
        }
    }
    let mut committing_data: Vec<Option<Vec<u8>>> = Vec::new();
    let n2 = o.committing_data.len();
    for i in 0..n2
        invariant
            n2 == o.committing_data.len(),
            committing_data@.len() == i,
            committing_data.deep_view() =~= o.committing_data.deep_view().take(i as int),
    {
        let slot = match &o.committing_data[i] {
            Some(d) => Some(clone_bytes(d)),
            None => None,
        };
        proof {
            assert(o.committing_data.deep_view()[i as int] == o.committing_data@[
                i as int
            ].deep_view());
            assert(slot.deep_view() == o.committing_data@[i as int].deep_view());
        }
        let ghost prev = committing_data@;
        let ghost prev_deep = committing_data.deep_view();
        committing_data.push(slot);
        proof {
            crate::lemma_vec_deep_view_push(prev, prev_deep, committing_data, slot);
            assert(committing_data.deep_view() =~= o.committing_data.deep_view().take(i + 1));
        }
    }
    let mut events: Vec<TaskCheckpointEvent> = Vec::new();
    let n3 = o.events.len();
    for i in 0..n3
        invariant
            n3 == o.events.len(),
            events.deep_view() =~= o.events.deep_view().take(i as int),
    {
        let e = clone_event(&o.events[i]);
        proof {
            assert(o.events.deep_view()[i as int] == o.events@[i as int].deep_view());
        }
        let ghost prev = events@;
        let ghost prev_deep = events.deep_view();
        events.push(e);
        proof {
            crate::lemma_vec_deep_view_push(prev, prev_deep, events, e);
            assert(events.deep_view() =~= o.events.deep_view().take(i + 1));
        }
    }
    let r = OperatorCheckpointState {
        operator_id: o.operator_id.clone(),
        parallelism: o.parallelism,
        finished_subtasks,
        committing_data,
        events,
    };
    proof {
        assert(o.finished_subtasks@.take(n1 as int) =~= o.finished_subtasks@);
        assert(o.committing_data.deep_view().take(n2 as int) =~= o.committing_data.deep_view());
        assert(o.events.deep_view().take(n3 as int) =~= o.events.deep_view());
    }
    r
}

/// Copy of the whole completion table, for persistence snapshots.
pub fn clone_operators(v: &Vec<OperatorCheckpointState>) -> (r: Vec<OperatorCheckpointState>)
    ensures
        r.deep_view() == v.deep_view(),
{
    let mut r: Vec<OperatorCheckpointState> = Vec::new();
    let n = v.len();
    for i in 0..n
        invariant
            n == v.len(),
            r.deep_view() =~= v.deep_view().take(i as int),
    {
        let o = clone_operator(&v[i]);
        proof {
            assert(v.deep_view()[i as int] == v@[i as int].deep_view());
        }
        let ghost prev = r@;
        let ghost prev_deep = r.deep_view();
        r.push(o);
        proof {
            crate::lemma_vec_deep_view_push(prev, prev_deep, r, o);
            assert(r.deep_view() =~= v.deep_view().take(i + 1));
        }
    }
    proof {
        assert(v.deep_view().take(n as int) =~= v.deep_view());
    }
    r
}

/// Every completion table of a fresh program enumeration is well formed.
pub proof fn lemma_program_operators_wf(nodes: Seq<crate::program::LogicalNodeView>)
    ensures
        forall|i: int|
            0 <= i < spec_program_operators(nodes).len() ==> (#[trigger] spec_program_operators(
                nodes,
            )[i]).wf(),
    decreases nodes.len(),
{
    if nodes.len() > 0 {
        lemma_program_operators_wf(nodes.drop_last());
        let ops = spec_program_operators(nodes);
        let rec = spec_program_operators(nodes.drop_last());
        let node_ops = spec_node_operators(nodes.last());
        assert forall|i: int| 0 <= i < ops.len() implies (#[trigger] ops[i]).wf() by {
            if i < rec.len() {
                assert(ops[i] == rec[i]);
            } else {
                assert(ops[i] == node_ops[i - rec.len()]);
                assert(node_ops[i - rec.len()] == spec_fresh_operator(
                    nodes.last().operator_chain[i - rec.len()],
                    nodes.last().parallelism,
                ));
            }
        }
    }
}

} // verus!
