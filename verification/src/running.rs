//! The decisions of the running state: which transition a configuration
//! update, a progress outcome, an elapsed lifetime or a failed tick forces,
//! and when a restart streak counts as healthy again.

use crate::controller::{
    ControllerProgress, JobConfig, JobController, RestartMode, SqlStopMode, StopMode,
};
use vstd::prelude::*;

verus! {

/// The running state of the job state machine.
#[derive(Debug)]
pub struct Running {}

/// Where the running state hands control next.
pub enum RunningTransition {
    /// Stop the job, telling the workers the given stop mode.
    Stopping(StopMode),
    /// Tear the job down and start it again.
    Restarting(RestartMode),
    /// The configured parallelism no longer matches the running job.
    Rescaling,
    /// A source finished; drain the rest of the dataflow.
    Finishing,
    /// A recoverable fault; restore from the last checkpoint.
    Recovering,
    /// An unrecoverable fault; the job ends with the given message.
    Fatal(String),
}

/// Ghost shape of a transition.
pub enum RunningTransitionView {
    Stopping(StopMode),
    Restarting(RestartMode),
    Rescaling,
    Finishing,
    Recovering,
    Fatal(Seq<char>),
}

impl View for RunningTransition {
    type V = RunningTransitionView;

    open spec fn view(&self) -> RunningTransitionView {
        match self {
            RunningTransition::Stopping(m) => RunningTransitionView::Stopping(*m),
            RunningTransition::Restarting(m) => RunningTransitionView::Restarting(*m),
            RunningTransition::Rescaling => RunningTransitionView::Rescaling,
            RunningTransition::Finishing => RunningTransitionView::Finishing,
            RunningTransition::Recovering => RunningTransitionView::Recovering,
            RunningTransition::Fatal(m) => RunningTransitionView::Fatal(m@),
        }
    }
}

/// The transition a configured stop wish forces, if any: an immediate wish
/// stops at once, a graceful or checkpointing wish stops with that mode, and
/// no wish means the job keeps running.
pub open spec fn spec_stop_transition(stop_mode: SqlStopMode) -> Option<StopMode> {
    match stop_mode {
        SqlStopMode::NoStop => None,
        SqlStopMode::Checkpoint => Some(StopMode::Checkpoint),
        SqlStopMode::Graceful => Some(StopMode::Graceful),
        SqlStopMode::Immediate => Some(StopMode::Immediate),
    }
}

/// The stop transition a configuration forces, if any.
pub fn stop_transition(config: &JobConfig) -> (r: Option<RunningTransition>)
    ensures
        match spec_stop_transition(config@.stop_mode) {
            Some(m) => r matches Some(t) && t@ == RunningTransitionView::Stopping(m),
            None => r is None,
        },
{
    match config.stop_mode {
        SqlStopMode::NoStop => None,
        SqlStopMode::Checkpoint => Some(RunningTransition::Stopping(StopMode::Checkpoint)),
        SqlStopMode::Graceful => Some(RunningTransition::Stopping(StopMode::Graceful)),
        SqlStopMode::Immediate => Some(RunningTransition::Stopping(StopMode::Immediate)),
    }
}

/// The transition a progress error forces: a preview job (one with a
/// lifetime) is never restarted; a job that used up its restart budget ends;
/// anything else recovers. A budget of minus one means unbounded restarts.
pub open spec fn spec_progress_error_transition(
    is_preview: bool,
    restarts: i32,
    allowed_restarts: i32,
) -> RunningTransitionView {
    if is_preview {
        RunningTransitionView::Fatal(
            "Job encountered a fatal error; see worker logs for details"@,
        )
    } else if allowed_restarts != -1 && restarts >= allowed_restarts {
        RunningTransitionView::Fatal("Job has restarted too many times"@)
    } else {
        RunningTransitionView::Recovering
    }
}

/// Decide where a progress error sends the job.
pub fn progress_error_transition(is_preview: bool, restarts: i32, allowed_restarts: i32) -> (r:
    RunningTransition)
    ensures
        r@ == spec_progress_error_transition(is_preview, restarts, allowed_restarts),
{
    if is_preview {
        RunningTransition::Fatal(
            String::from_str("Job encountered a fatal error; see worker logs for details"),
        )
    } else if allowed_restarts != -1 && restarts >= allowed_restarts {
        RunningTransition::Fatal(String::from_str("Job has restarted too many times"))
    } else {
        RunningTransition::Recovering
    }
}

/// The time left before the job's lifetime expires: zero once it has, and
/// nothing for a job without a lifetime.
pub fn ttl_remaining(ttl_micros: Option<u64>, elapsed_micros: u64) -> (r: Option<u64>)
    ensures
        match ttl_micros {
            Some(t) => r == Some(
                if elapsed_micros <= t {
                    (t - elapsed_micros) as u64
                } else {
                    0u64
                },
            ),
            None => r is None,
        },
{
    match ttl_micros {
        Some(t) => Some(
            if elapsed_micros <= t {
                t - elapsed_micros
            } else {
                0
            },
        ),
        None => None,
    }
}

/// The job has run long enough after restarts to call the streak healthy and
/// reset the restart counter.
pub fn should_reset_restarts(restarts: i32, running_elapsed_micros: u64, healthy_duration_micros: u64) -> (r:
    bool)
    ensures
        r == (restarts > 0 && running_elapsed_micros > healthy_duration_micros),
{
    restarts > 0 && running_elapsed_micros > healthy_duration_micros
}

/// The transition an expired job lifetime forces: stop at once, whatever
/// else is in flight.
pub fn ttl_expired_transition() -> (r: RunningTransition)
    ensures
        r@ == RunningTransitionView::Stopping(StopMode::Immediate),
{
    RunningTransition::Stopping(StopMode::Immediate)
}

/// The transition a progress outcome forces, if any.
pub fn progress_transition(p: &ControllerProgress) -> (r: Option<RunningTransition>)
    ensures
        match p {
            ControllerProgress::Continue => r is None,
            ControllerProgress::Finishing => r matches Some(t) && t@
                == RunningTransitionView::Finishing,
        },
{
    match p {
        ControllerProgress::Continue => None,
        ControllerProgress::Finishing => Some(RunningTransition::Finishing),
    }
}

impl Running {
    /// The state's name.
    pub fn name(&self) -> (r: &'static str)
        ensures
            r@ == "Running"@,
    {
        "Running"
    }

    /// The transition a fresh configuration forces, if any; when none, the
    /// controller adopts the configuration. A changed restart nonce forces a
    /// restart; a parallelism override that disagrees with a node's actual
    /// parallelism forces a rescale; a stop wish stops the job.
    pub fn handle_config_update(
        controller: &mut JobController,
        config: JobConfig,
        status_restart_nonce: i32,
    ) -> (r: Option<RunningTransition>)
        ensures
            match r {
                Some(t) => *final(controller) == *old(controller) && match t@ {
                    RunningTransitionView::Stopping(m) => spec_stop_transition(config@.stop_mode)
                        == Some(m),
                    RunningTransitionView::Restarting(m) => spec_stop_transition(
                        config@.stop_mode,
                    ) is None && config@.restart_nonce != status_restart_nonce && m
                        == config@.restart_mode,
                    RunningTransitionView::Rescaling => {
                        &&& spec_stop_transition(config@.stop_mode) is None
                        &&& config@.restart_nonce == status_restart_nonce
                        &&& exists|i: int|
                            0 <= i < config@.parallelism_overrides.len()
                                && old(controller)@.model.operator_parallelism.contains_key(
                                (#[trigger] config@.parallelism_overrides[i]).0,
                            ) && old(controller)@.model.operator_parallelism[config@.parallelism_overrides[i].0]
                                != config@.parallelism_overrides[i].1 as usize
                    },
                    _ => false,
                },
                None => {
                    &&& spec_stop_transition(config@.stop_mode) is None
                    &&& config@.restart_nonce == status_restart_nonce
                    &&& forall|i: int|
                        0 <= i < config@.parallelism_overrides.len() ==> !(old(
                            controller,
                        )@.model.operator_parallelism.contains_key(
                            (#[trigger] config@.parallelism_overrides[i]).0,
                        ) && old(controller)@.model.operator_parallelism[config@.parallelism_overrides[i].0]
                            != config@.parallelism_overrides[i].1 as usize)
                    &&& final(controller)@ == (crate::controller::JobControllerView {
                        config: config@,
                        ..old(controller)@
                    })
                },
            },
    {
        let stop = stop_transition(&config);
        if let Some(t) = stop {
            return Some(t);
        }
        if config.restart_nonce != status_restart_nonce {
            return Some(RunningTransition::Restarting(config.restart_mode));
        }
        let n = config.parallelism_overrides.len();
        for i in 0..n
            invariant
                n == config.parallelism_overrides@.len(),
                *controller == *old(controller),
                spec_stop_transition(config@.stop_mode) is None,
                config@.restart_nonce == status_restart_nonce,
                forall|j: int|
                    0 <= j < i ==> !(controller@.model.operator_parallelism.contains_key(
                        (#[trigger] config.parallelism_overrides@[j]).0,
                    ) && controller@.model.operator_parallelism[config.parallelism_overrides@[j].0]
                        != config.parallelism_overrides@[j].1 as usize),
        {
            let (node_id, p) = config.parallelism_overrides[i];
            if let Some(actual) = controller.operator_parallelism(node_id) {
                if actual != p as usize {
                    proof {
                        let ov = config@.parallelism_overrides[i as int];
                        assert(ov.0 == node_id && ov.1 == p);
                        assert(controller@.model.operator_parallelism.contains_key(ov.0)
                            && controller@.model.operator_parallelism[ov.0] != ov.1 as usize);
                    }
                    return Some(RunningTransition::Rescaling);
                }
            }
        }
        controller.update_config(config);
        None
    }
}

} // verus!
