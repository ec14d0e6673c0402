//! What the controller persists about a checkpoint, and how the typed values
//! are encoded for the metadata store: the state column as its text name, the
//! epochs as signed 32-bit integers, the span events as text. Decoding an
//! encoded row reproduces the original values.

use crate::checkpoint::{JobCheckpointEventType, JobCheckpointSpan, OperatorCheckpointState};
use vstd::prelude::*;

verus! {

/// The state column of a checkpoint row.
#[allow(missing_docs)]
#[derive(Clone, Copy, Debug, PartialEq, Eq, Structural)]
pub enum DbCheckpointState {
    InProgress,
    Committing,
    Ready,
    Compacting,
    Compacted,
}

/// The text name under which each state is stored.
pub open spec fn spec_db_state_name(s: DbCheckpointState) -> Seq<char> {
    match s {
        DbCheckpointState::InProgress => "inprogress"@,
        DbCheckpointState::Committing => "committing"@,
        DbCheckpointState::Ready => "ready"@,
        DbCheckpointState::Compacting => "compacting"@,
        DbCheckpointState::Compacted => "compacted"@,
    }
}

/// The text name under which `s` is stored.
pub fn db_state_name(s: DbCheckpointState) -> (r: String)
    ensures
        r@ == spec_db_state_name(s),
{
    match s {
        DbCheckpointState::InProgress => String::from_str("inprogress"),
        DbCheckpointState::Committing => String::from_str("committing"),
        DbCheckpointState::Ready => String::from_str("ready"),
        DbCheckpointState::Compacting => String::from_str("compacting"),
        DbCheckpointState::Compacted => String::from_str("compacted"),
    }
}

/// The state a stored text name denotes, if any.
pub open spec fn spec_parse_db_state(name: Seq<char>) -> Option<DbCheckpointState> {
    if name == "inprogress"@ {
        Some(DbCheckpointState::InProgress)
    } else if name == "committing"@ {
        Some(DbCheckpointState::Committing)
    } else if name == "ready"@ {
        Some(DbCheckpointState::Ready)
    } else if name == "compacting"@ {
        Some(DbCheckpointState::Compacting)
    } else if name == "compacted"@ {
        Some(DbCheckpointState::Compacted)
    } else {
        None
    }
}

/// Parse a stored state name.
pub fn parse_db_state(name: &String) -> (r: Option<DbCheckpointState>)
    ensures
        r == spec_parse_db_state(name@),
{
    if name.eq(&String::from_str("inprogress")) {
        Some(DbCheckpointState::InProgress)
    } else if name.eq(&String::from_str("committing")) {
        Some(DbCheckpointState::Committing)
    } else if name.eq(&String::from_str("ready")) {
        Some(DbCheckpointState::Ready)
    } else if name.eq(&String::from_str("compacting")) {
        Some(DbCheckpointState::Compacting)
    } else if name.eq(&String::from_str("compacted")) {
        Some(DbCheckpointState::Compacted)
    } else {
        None
    }
}

/// Encoding then parsing a state name gives the state back.
pub proof fn lemma_db_state_round_trip(s: DbCheckpointState)
    ensures
        spec_parse_db_state(spec_db_state_name(s)) == Some(s),
{
    reveal_strlit("inprogress");
    reveal_strlit("committing");
    reveal_strlit("ready");
    reveal_strlit("compacting");
    reveal_strlit("compacted");
    assert("committing"@ != "inprogress"@) by {
        assert("committing"@[0] != "inprogress"@[0]);
    }
    assert("ready"@ != "inprogress"@ && "ready"@ != "committing"@) by {
        assert("ready"@.len() != "inprogress"@.len());
    }
    assert("compacting"@ != "inprogress"@ && "compacting"@ != "committing"@ && "compacting"@
        != "ready"@) by {
        assert("compacting"@[0] != "inprogress"@[0]);
        assert("compacting"@[3] != "committing"@[3]);
        assert("compacting"@.len() != "ready"@.len());
    }
    assert("compacted"@ != "inprogress"@ && "compacted"@ != "committing"@ && "compacted"@
        != "ready"@ && "compacted"@ != "compacting"@) by {
        assert("compacted"@[0] != "inprogress"@[0]);
        assert("compacted"@.len() != "committing"@.len());
        assert("compacted"@.len() != "ready"@.len());
        assert("compacted"@.len() != "compacting"@.len());
    }
}

/// The largest epoch the store's signed 32-bit column can hold.
pub const MAX_DB_EPOCH: u32 = 0x7fff_ffff;

/// An epoch as stored, if it fits the signed column.
pub open spec fn spec_epoch_to_db(epoch: u32) -> Option<i32> {
    if epoch <= MAX_DB_EPOCH {
        Some(epoch as i32)
    } else {
        None
    }
}

/// Encode an epoch for the store. Values the signed column cannot hold are
/// rejected.
pub fn epoch_to_db(epoch: u32) -> (r: Option<i32>)
    ensures
        r == spec_epoch_to_db(epoch),
{
    if epoch <= MAX_DB_EPOCH {
        Some(epoch as i32)
    } else {
        None
    }
}

/// A stored epoch read back, if the column holds a valid value.
pub open spec fn spec_epoch_from_db(stored: i32) -> Option<u32> {
    if stored >= 0 {
        Some(stored as u32)
    } else {
        None
    }
}

/// Decode a stored epoch.
pub fn epoch_from_db(stored: i32) -> (r: Option<u32>)
    ensures
        r == spec_epoch_from_db(stored),
{
    if stored >= 0 {
        Some(stored as u32)
    } else {
        None
    }
}

/// Storing an epoch and reading it back gives the epoch.
pub proof fn lemma_epoch_round_trip(epoch: u32)
    requires
        epoch <= MAX_DB_EPOCH,
    ensures
        spec_epoch_to_db(epoch) is Some,
        spec_epoch_from_db(spec_epoch_to_db(epoch).unwrap()) == Some(epoch),
{
}

/// The text name under which each span event is stored.
pub open spec fn spec_span_event_name(e: JobCheckpointEventType) -> Seq<char> {
    match e {
        JobCheckpointEventType::Checkpointing => "checkpointing"@,
        JobCheckpointEventType::CheckpointingOperators => "checkpointing_operators"@,
        JobCheckpointEventType::WritingMetadata => "writing_metadata"@,
        JobCheckpointEventType::Committing => "committing"@,
        JobCheckpointEventType::Compacting => "compacting"@,
    }
}

/// The text name under which a span event is stored.
pub fn span_event_name(e: JobCheckpointEventType) -> (r: String)
    ensures
        r@ == spec_span_event_name(e),
{
    match e {
        JobCheckpointEventType::Checkpointing => String::from_str("checkpointing"),
        JobCheckpointEventType::CheckpointingOperators => String::from_str(
            "checkpointing_operators",
        ),
        JobCheckpointEventType::WritingMetadata => String::from_str("writing_metadata"),
        JobCheckpointEventType::Committing => String::from_str("committing"),
        JobCheckpointEventType::Compacting => String::from_str("compacting"),
    }
}

/// The span event a stored text name denotes, if any.
pub open spec fn spec_parse_span_event(name: Seq<char>) -> Option<JobCheckpointEventType> {
    if name == "checkpointing"@ {
        Some(JobCheckpointEventType::Checkpointing)
    } else if name == "checkpointing_operators"@ {
        Some(JobCheckpointEventType::CheckpointingOperators)
    } else if name == "writing_metadata"@ {
        Some(JobCheckpointEventType::WritingMetadata)
    } else if name == "committing"@ {
        Some(JobCheckpointEventType::Committing)
    } else if name == "compacting"@ {
        Some(JobCheckpointEventType::Compacting)
    } else {
        None
    }
}

/// Parse a stored span event name.
pub fn parse_span_event(name: &String) -> (r: Option<JobCheckpointEventType>)
    ensures
        r == spec_parse_span_event(name@),
{
    if name.eq(&String::from_str("checkpointing")) {
        Some(JobCheckpointEventType::Checkpointing)
    } else if name.eq(&String::from_str("checkpointing_operators")) {
        Some(JobCheckpointEventType::CheckpointingOperators)
    } else if name.eq(&String::from_str("writing_metadata")) {
        Some(JobCheckpointEventType::WritingMetadata)
    } else if name.eq(&String::from_str("committing")) {
        Some(JobCheckpointEventType::Committing)
    } else if name.eq(&String::from_str("compacting")) {
        Some(JobCheckpointEventType::Compacting)
    } else {
        None
    }
}

/// Encoding then parsing a span event name gives the event back.
pub proof fn lemma_span_event_round_trip(e: JobCheckpointEventType)
    ensures
        spec_parse_span_event(spec_span_event_name(e)) == Some(e),
{
    reveal_strlit("checkpointing");
    reveal_strlit("checkpointing_operators");
    reveal_strlit("writing_metadata");
    reveal_strlit("committing");
    reveal_strlit("compacting");
    assert("checkpointing_operators"@ != "checkpointing"@) by {
        assert("checkpointing_operators"@.len() != "checkpointing"@.len());
    }
    assert("writing_metadata"@ != "checkpointing"@ && "writing_metadata"@
        != "checkpointing_operators"@) by {
        assert("writing_metadata"@.len() != "checkpointing"@.len());
        assert("writing_metadata"@.len() != "checkpointing_operators"@.len());
    }
    assert("committing"@ != "checkpointing"@ && "committing"@ != "checkpointing_operators"@
        && "committing"@ != "writing_metadata"@) by {
        assert("committing"@.len() != "checkpointing"@.len());
        assert("committing"@.len() != "checkpointing_operators"@.len());
        assert("committing"@.len() != "writing_metadata"@.len());
    }
    assert("compacting"@ != "checkpointing"@ && "compacting"@ != "checkpointing_operators"@
        && "compacting"@ != "writing_metadata"@ && "compacting"@ != "committing"@) by {
        assert("compacting"@.len() != "checkpointing"@.len());
        assert("compacting"@.len() != "checkpointing_operators"@.len());
        assert("compacting"@.len() != "writing_metadata"@.len());
        assert("compacting"@[3] != "committing"@[3]);
    }
}

/// A span as stored on the row.
#[derive(Clone, Debug, PartialEq, Eq)]
pub struct StoredSpan {
    pub event: String,
    pub start_micros: u64,
    pub finish_micros: Option<u64>,
}

/// Ghost shape of a stored span.
pub struct StoredSpanView {
    pub event: Seq<char>,
    pub start_micros: u64,
    pub finish_micros: Option<u64>,
}

impl View for StoredSpan {
    type V = StoredSpanView;

    open spec fn view(&self) -> StoredSpanView {
        StoredSpanView {
            event: self.event@,
            start_micros: self.start_micros,
            finish_micros: self.finish_micros,
        }
    }
}

impl DeepView for StoredSpan {
    type V = StoredSpanView;

    open spec fn deep_view(&self) -> StoredSpanView {
        self.view()
    }
}

/// A span in its stored form.
pub open spec fn spec_encode_span(s: JobCheckpointSpan) -> StoredSpanView {
    StoredSpanView {
        event: spec_span_event_name(s.event),
        start_micros: s.start_micros,
        finish_micros: s.finish_micros,
    }
}

/// The span a stored form denotes, if its event name is known.
pub open spec fn spec_decode_span(s: StoredSpanView) -> Option<JobCheckpointSpan> {
    match spec_parse_span_event(s.event) {
        Some(event) => Some(
            JobCheckpointSpan {
                event,
                start_micros: s.start_micros,
                finish_micros: s.finish_micros,
            },
        ),
        None => None,
    }
}

/// Encode one span for the row.
pub fn encode_span(s: &JobCheckpointSpan) -> (r: StoredSpan)
    ensures
        r@ == spec_encode_span(*s),
{
    StoredSpan {
        event: span_event_name(s.event),
        start_micros: s.start_micros,
        finish_micros: s.finish_micros,
    }
}

/// Decode one stored span.
pub fn decode_span(s: &StoredSpan) -> (r: Option<JobCheckpointSpan>)
    ensures
        r == spec_decode_span(s@),
{
    match parse_span_event(&s.event) {
        Some(event) => Some(
            JobCheckpointSpan {
                event,
                start_micros: s.start_micros,
                finish_micros: s.finish_micros,
            },
        ),
        None => None,
    }
}

/// Encoding then decoding a span gives the span back.
pub proof fn lemma_span_round_trip(s: JobCheckpointSpan)
    ensures
        spec_decode_span(spec_encode_span(s)) == Some(s),
{
    lemma_span_event_round_trip(s.event);
}

/// One update of a checkpoint row, as the controller hands it to the store:
/// the row key, the new state and optional finish time, the aggregated
/// per-operator details, and the span log.
#[derive(Debug)]
pub struct CheckpointRowUpdate {
    pub checkpoint_id: String,
    pub db_state: DbCheckpointState,
    pub finish_time_micros: Option<u64>,
    pub operator_details: Vec<OperatorCheckpointState>,
    pub spans: Vec<JobCheckpointSpan>,
}

/// Ghost shape of one checkpoint row update.
pub struct CheckpointRowUpdateView {
    pub checkpoint_id: Seq<char>,
    pub db_state: DbCheckpointState,
    pub finish_time_micros: Option<u64>,
    pub operator_details: Seq<crate::checkpoint::OperatorCheckpointStateView>,
    pub spans: Seq<JobCheckpointSpan>,
}

impl View for CheckpointRowUpdate {
    type V = CheckpointRowUpdateView;

    open spec fn view(&self) -> CheckpointRowUpdateView {
        CheckpointRowUpdateView {
            checkpoint_id: self.checkpoint_id@,
            db_state: self.db_state,
            finish_time_micros: self.finish_time_micros,
            operator_details: self.operator_details.deep_view(),
            spans: self.spans@,
        }
    }
}

/// The final write that closes a committed checkpoint: the finish time and
/// the span log, keyed by the checkpoint row.
#[derive(Debug)]
pub struct CommitCheckpointRow {
    pub checkpoint_id: String,
    pub finish_time_micros: u64,
    pub spans: Vec<JobCheckpointSpan>,
}

/// Ghost shape of the commit-closing write.
pub struct CommitCheckpointRowView {
    pub checkpoint_id: Seq<char>,
    pub finish_time_micros: u64,
    pub spans: Seq<JobCheckpointSpan>,
}

impl View for CommitCheckpointRow {
    type V = CommitCheckpointRowView;

    open spec fn view(&self) -> CommitCheckpointRowView {
        CommitCheckpointRowView {
            checkpoint_id: self.checkpoint_id@,
            finish_time_micros: self.finish_time_micros,
            spans: self.spans@,
        }
    }
}

/// The row inserted when a checkpoint starts.
#[derive(Debug)]
pub struct NewCheckpointRow {
    pub checkpoint_id: String,
    pub organization_id: String,
    pub job_id: String,
    pub state_backend: String,
    pub epoch: i32,
    pub min_epoch: i32,
    pub start_time_micros: u64,
}

/// Ghost shape of the inserted checkpoint row.
pub struct NewCheckpointRowView {
    pub checkpoint_id: Seq<char>,
    pub organization_id: Seq<char>,
    pub job_id: Seq<char>,
    pub state_backend: Seq<char>,
    pub epoch: i32,
    pub min_epoch: i32,
    pub start_time_micros: u64,
}

impl View for NewCheckpointRow {
    type V = NewCheckpointRowView;

    open spec fn view(&self) -> NewCheckpointRowView {
        NewCheckpointRowView {
            checkpoint_id: self.checkpoint_id@,
            organization_id: self.organization_id@,
            job_id: self.job_id@,
            state_backend: self.state_backend@,
            epoch: self.epoch,
            min_epoch: self.min_epoch,
            start_time_micros: self.start_time_micros,
        }
    }
}

/// The commit-progress snapshot persisted during the commit phase: the
/// subtasks whose acknowledgement has arrived so far, keyed by the
/// checkpoint row, with the span log.
pub struct CommitProgressRow {
    pub checkpoint_id: String,
    pub committed_subtasks: Vec<crate::checkpoint::CommitSubtask>,
    pub spans: Vec<JobCheckpointSpan>,
}

/// Ghost shape of the commit-progress snapshot.
pub struct CommitProgressRowView {
    pub checkpoint_id: Seq<char>,
    pub committed_subtasks: Seq<crate::checkpoint::CommitSubtaskView>,
    pub spans: Seq<JobCheckpointSpan>,
}

impl View for CommitProgressRow {
    type V = CommitProgressRowView;

    open spec fn view(&self) -> CommitProgressRowView {
        CommitProgressRowView {
            checkpoint_id: self.checkpoint_id@,
            committed_subtasks: self.committed_subtasks.deep_view(),
            spans: self.spans@,
        }
    }
}

/// What one persist-coordination step writes: the in-progress checkpoint row
/// while the checkpointing phase runs, or the commit-progress snapshot while
/// the commit phase runs, so that every coordination mutation reaches the
/// store before the next event is handled.
pub enum CoordinationRowUpdate {
    Checkpointing(CheckpointRowUpdate),
    Committing(CommitProgressRow),
}

} // verus!
