use vstd::prelude::*;

use crate::config::DummyProverConfig;
use crate::job::{ApiError, BabyProverError};

verus! {

/// The state of one round of the job-acquisition protocol.  Each
/// non-terminal state names the one outside call the round makes next; the
/// answer to that call is the `Event` that drives the next transition.
#[derive(Debug, Clone, PartialEq)]
pub enum RoundState {
    /// Nothing happened yet; the multiblock query is made first.
    Start,
    /// A multiblock job was found; the heartbeat naming it is sent next.
    MultiHeartbeat { block_from: u64, block_to: u64, job_id: u32 },
    /// The multiblock heartbeat went out; the input data is fetched next.
    MultiFetch { block_from: u64, block_to: u64, job_id: u32 },
    /// The multiblock data arrived; the proof is published next.
    MultiPublish { block_from: u64, block_to: u64, job_id: u32 },
    /// No multiblock job exists; size class `idx` of the configuration is
    /// queried next.
    Scan { idx: usize },
    /// The single-block scan ended; the heartbeat naming the selected job
    /// (the sentinel `0` when none was found) is sent next.
    BlockHeartbeat { block: u64, job_id: u32 },
    /// The single-block heartbeat went out; the input data is fetched next.
    BlockFetch { block: u64, job_id: u32 },
    /// The single-block data arrived; the proof is published next.
    BlockPublish { block: u64, job_id: u32 },
    /// The round finished successfully.
    Done,
    /// The heartbeat channel refused a message: the wiring fault.
    Lost,
    /// A coordination-service call failed.
    Failed { error: ApiError },
}

/// The outside world's answer to the call that the current state asked for.
#[derive(Debug, Clone, PartialEq)]
pub enum Event {
    /// Answer to the multiblock query: a range and a job identifier, or none.
    MultiblockAnswer { answer: Option<((u64, u64), u32)> },
    /// Answer to a single-block query: a block and a job identifier, or none.
    BlockAnswer { answer: Option<(u64, u32)> },
    /// The heartbeat send returned; `delivered` tells whether the channel
    /// accepted the message.
    HeartbeatSent { delivered: bool },
    /// A data fetch returned successfully.
    Fetched,
    /// A proof publication returned successfully.
    Published,
    /// The coordination-service call failed with the given detail.
    ApiFailed { detail: String },
}

/// The size class queried from state `Scan { idx }`, total for every index.
pub open spec fn size_at(cfg: Seq<usize>, idx: int) -> usize {
    if 0 <= idx < cfg.len() {
        cfg[idx]
    } else {
        0
    }
}

/// Which events answer the call made from a given state.  Terminal states
/// make no call and accept no event.
pub open spec fn feeds(s: RoundState, e: Event) -> bool {
    match s {
        RoundState::Start => e is MultiblockAnswer || e is ApiFailed,
        RoundState::MultiHeartbeat { .. } => e is HeartbeatSent,
        RoundState::MultiFetch { .. } => e is Fetched || e is ApiFailed,
        RoundState::MultiPublish { .. } => e is Published || e is ApiFailed,
        RoundState::Scan { .. } => e is BlockAnswer || e is ApiFailed,
        RoundState::BlockHeartbeat { .. } => e is HeartbeatSent,
        RoundState::BlockFetch { .. } => e is Fetched || e is ApiFailed,
        RoundState::BlockPublish { .. } => e is Published || e is ApiFailed,
        RoundState::Done => false,
        RoundState::Lost => false,
        RoundState::Failed { .. } => false,
    }
}

/// The round transition: the next state after the current state's call was
/// answered by `e`.  Events that do not answer the current state's call
/// leave the state unchanged; runs rule them out through `feeds`.
pub open spec fn spec_step(cfg: Seq<usize>, s: RoundState, e: Event) -> RoundState {
    match s {
        RoundState::Start => match e {
            Event::MultiblockAnswer { answer } => match answer {
                Some(((block_from, block_to), job_id)) => RoundState::MultiHeartbeat {
                    block_from,
                    block_to,
                    job_id,
                },
                None => if cfg.len() > 0 {
                    RoundState::Scan { idx: 0 }
                } else {
                    RoundState::BlockHeartbeat { block: 0, job_id: 0 }
                },
            },
            Event::ApiFailed { detail } => RoundState::Failed {
                error: ApiError::MultiblockToProve { detail },
            },
            _ => s,
        },
        RoundState::MultiHeartbeat { block_from, block_to, job_id } => match e {
            Event::HeartbeatSent { delivered } => if delivered {
                RoundState::MultiFetch { block_from, block_to, job_id }
            } else {
                RoundState::Lost
            },
            _ => s,
        },
        RoundState::MultiFetch { block_from, block_to, job_id } => match e {
            Event::Fetched => RoundState::MultiPublish { block_from, block_to, job_id },
            Event::ApiFailed { detail } => RoundState::Failed {
                error: ApiError::MultiblockData { block_from, block_to, detail },
            },
            _ => s,
        },
        RoundState::MultiPublish { block_from, block_to, job_id } => match e {
            Event::Published => RoundState::Done,
            Event::ApiFailed { detail } => RoundState::Failed {
                error: ApiError::PublishMultiblock { block_from, block_to, detail },
            },
            _ => s,
        },
        RoundState::Scan { idx } => match e {
            Event::BlockAnswer { answer } => {
                let (block, job_id) = match answer {
                    Some((block, job_id)) => (block, job_id),
                    None => (0u64, 0u32),
                };
                if job_id != 0 {
                    RoundState::BlockHeartbeat { block, job_id }
                } else if idx + 1 < cfg.len() {
                    RoundState::Scan { idx: (idx + 1) as usize }
                } else {
                    RoundState::BlockHeartbeat { block: 0, job_id: 0 }
                }
            },
            Event::ApiFailed { detail } => RoundState::Failed {
                error: ApiError::BlockToProve { chunks: size_at(cfg, idx as int), detail },
            },
            _ => s,
        },
        RoundState::BlockHeartbeat { block, job_id } => match e {
            Event::HeartbeatSent { delivered } => if !delivered {
                RoundState::Lost
            } else if job_id == 0 {
                RoundState::Done
            } else {
                RoundState::BlockFetch { block, job_id }
            },
            _ => s,
        },
        RoundState::BlockFetch { block, job_id } => match e {
            Event::Fetched => RoundState::BlockPublish { block, job_id },
            Event::ApiFailed { detail } => RoundState::Failed {
                error: ApiError::BlockData { block, detail },
            },
            _ => s,
        },
        RoundState::BlockPublish { block, job_id } => match e {
            Event::Published => RoundState::Done,
            Event::ApiFailed { detail } => RoundState::Failed {
                error: ApiError::PublishBlock { block, detail },
            },
            _ => s,
        },
        RoundState::Done => s,
        RoundState::Lost => s,
        RoundState::Failed { .. } => s,
    }
}

/// Executable counterpart of `spec_step`: the round controller drives its
/// state with it, one answered call at a time.
pub fn step(config: &DummyProverConfig, s: RoundState, e: Event) -> (r: RoundState)
    ensures
        r == spec_step(config.block_sizes@, s, e),
{
    match s {
        RoundState::Start => match e {
            Event::MultiblockAnswer { answer } => match answer {
                Some(((block_from, block_to), job_id)) => RoundState::MultiHeartbeat {
                    block_from,
                    block_to,
                    job_id,
                },
                None => if config.block_sizes.len() > 0 {
                    RoundState::Scan { idx: 0 }
                } else {
                    RoundState::BlockHeartbeat { block: 0, job_id: 0 }
                },
            },
            Event::ApiFailed { detail } => RoundState::Failed {
                error: ApiError::MultiblockToProve { detail },
            },
            _ => RoundState::Start,
        },
        RoundState::MultiHeartbeat { block_from, block_to, job_id } => match e {
            Event::HeartbeatSent { delivered } => if delivered {
                RoundState::MultiFetch { block_from, block_to, job_id }
            } else {
                RoundState::Lost
            },
            _ => RoundState::MultiHeartbeat { block_from, block_to, job_id },
        },
        RoundState::MultiFetch { block_from, block_to, job_id } => match e {
            Event::Fetched => RoundState::MultiPublish { block_from, block_to, job_id },
            Event::ApiFailed { detail } => RoundState::Failed {
                error: ApiError::MultiblockData { block_from, block_to, detail },
            },
            _ => RoundState::MultiFetch { block_from, block_to, job_id },
        },
        RoundState::MultiPublish { block_from, block_to, job_id } => match e {
            Event::Published => RoundState::Done,
            Event::ApiFailed { detail } => RoundState::Failed {
                error: ApiError::PublishMultiblock { block_from, block_to, detail },
            },
            _ => RoundState::MultiPublish { block_from, block_to, job_id },
        },
        RoundState::Scan { idx } => match e {
            Event::BlockAnswer { answer } => {
                let (block, job_id): (u64, u32) = match answer {
                    Some((block, job_id)) => (block, job_id),
                    None => (0u64, 0u32),
                };
                if job_id != 0 {
                    RoundState::BlockHeartbeat { block, job_id }
                } else if idx < config.block_sizes.len() && idx + 1 < config.block_sizes.len() {
                    RoundState::Scan { idx: idx + 1 }
                } else {
                    RoundState::BlockHeartbeat { block: 0, job_id: 0 }
                }
            },
            Event::ApiFailed { detail } => {
                let chunks: usize = if idx < config.block_sizes.len() {
                    config.block_sizes[idx]
                } else {
                    0
                };
                RoundState::Failed { error: ApiError::BlockToProve { chunks, detail } }
            },
            _ => RoundState::Scan { idx },
        },
        RoundState::BlockHeartbeat { block, job_id } => match e {
            Event::HeartbeatSent { delivered } => if !delivered {
                RoundState::Lost
            } else if job_id == 0 {
                RoundState::Done
            } else {
                RoundState::BlockFetch { block, job_id }
            },
            _ => RoundState::BlockHeartbeat { block, job_id },
        },
        RoundState::BlockFetch { block, job_id } => match e {
            Event::Fetched => RoundState::BlockPublish { block, job_id },
            Event::ApiFailed { detail } => RoundState::Failed {
                error: ApiError::BlockData { block, detail },
            },
            _ => RoundState::BlockFetch { block, job_id },
        },
        RoundState::BlockPublish { block, job_id } => match e {
            Event::Published => RoundState::Done,
            Event::ApiFailed { detail } => RoundState::Failed {
                error: ApiError::PublishBlock { block, detail },
            },
            _ => RoundState::BlockPublish { block, job_id },
        },
        RoundState::Done => RoundState::Done,
        RoundState::Lost => RoundState::Lost,
        RoundState::Failed { error } => RoundState::Failed { error },
    }
}

/// The state reached from `Start` after the events of `evs`, in order.
pub open spec fn run_state(cfg: Seq<usize>, evs: Seq<Event>) -> RoundState
    decreases evs.len(),
{
    if evs.len() == 0 {
        RoundState::Start
    } else {
        spec_step(cfg, run_state(cfg, evs.drop_last()), evs.last())
    }
}

/// The state just before event `i` of the trace is consumed.
pub open spec fn state_at(cfg: Seq<usize>, evs: Seq<Event>, i: int) -> RoundState {
    run_state(cfg, evs.take(i))
}

/// A well-formed trace: every event answers the call that the state before
/// it asked for (so no event follows a terminal state).
pub open spec fn wf_events(cfg: Seq<usize>, evs: Seq<Event>) -> bool {
    forall|i: int| 0 <= i < evs.len() ==> #[trigger] feeds(state_at(cfg, evs, i), evs[i])
}

/// States of a finished round.
pub open spec fn is_terminal(s: RoundState) -> bool {
    match s {
        RoundState::Done => true,
        RoundState::Lost => true,
        RoundState::Failed { .. } => true,
        _ => false,
    }
}

/// The round's result when it ends in a given terminal state.
pub open spec fn outcome_of(s: RoundState) -> Result<(), BabyProverError> {
    match s {
        RoundState::Lost => Err(BabyProverError::HeartbeatLost),
        RoundState::Failed { error } => Err(BabyProverError::Api(error)),
        _ => Ok(()),
    }
}

/// The result of the round whose trace is `evs`.
pub open spec fn run_outcome(cfg: Seq<usize>, evs: Seq<Event>) -> Result<(), BabyProverError> {
    outcome_of(run_state(cfg, evs))
}

/// A trace of one whole round: well formed and ending in a terminal state.
pub open spec fn complete_run(cfg: Seq<usize>, evs: Seq<Event>) -> bool {
    wf_events(cfg, evs) && is_terminal(run_state(cfg, evs))
}

/// What `next_round` promises of its result: it is the outcome of some
/// complete run of the round machine under the given configuration.
pub open spec fn round_result_consistent(cfg: Seq<usize>, r: Result<(), BabyProverError>) -> bool {
    exists|evs: Seq<Event>|
        #[trigger] complete_run(cfg, evs) && r == run_outcome(cfg, evs)
}

/// Reachable states keep the scan index inside the configuration.  The
/// configuration itself comes from a `Vec`, so its length fits in `usize`.
pub open spec fn state_inv(cfg: Seq<usize>, s: RoundState) -> bool {
    &&& cfg.len() <= usize::MAX
    &&& (s matches RoundState::Scan { idx } ==> idx < cfg.len())
}

/// Termination measure of the round: every answered call brings the state
/// strictly closer to a terminal one.
pub open spec fn rank(cfg: Seq<usize>, s: RoundState) -> int {
    match s {
        RoundState::Start => cfg.len() as int + 5,
        RoundState::MultiHeartbeat { .. } => 3,
        RoundState::MultiFetch { .. } => 2,
        RoundState::MultiPublish { .. } => 1,
        RoundState::Scan { idx } => 4 + cfg.len() as int - idx,
        RoundState::BlockHeartbeat { .. } => 3,
        RoundState::BlockFetch { .. } => 2,
        RoundState::BlockPublish { .. } => 1,
        RoundState::Done => 0,
        RoundState::Lost => 0,
        RoundState::Failed { .. } => 0,
    }
}

/// Appending one event steps the run by one transition.
pub proof fn lemma_run_push(cfg: Seq<usize>, evs: Seq<Event>, e: Event)
    ensures
        run_state(cfg, evs.push(e)) == spec_step(cfg, run_state(cfg, evs), e),
{
    assert(evs.push(e).drop_last() =~= evs);
    assert(evs.push(e).last() == e);
}

/// Appending an event does not change the states the run went through.
pub proof fn lemma_state_at_push(cfg: Seq<usize>, evs: Seq<Event>, e: Event, k: int)
    requires
        0 <= k <= evs.len(),
    ensures
        state_at(cfg, evs.push(e), k) == state_at(cfg, evs, k),
{
    assert(evs.push(e).take(k) =~= evs.take(k));
}

/// Taking a prefix does not change the states the run went through.
pub proof fn lemma_state_at_prefix(cfg: Seq<usize>, evs: Seq<Event>, n: int, k: int)
    requires
        0 <= k <= n <= evs.len(),
    ensures
        state_at(cfg, evs.take(n), k) == state_at(cfg, evs, k),
{
    assert(evs.take(n).take(k) =~= evs.take(k));
}

/// The state after the whole trace is the state before its one-past-the-end
/// position.
pub proof fn lemma_state_at_end(cfg: Seq<usize>, evs: Seq<Event>)
    ensures
        state_at(cfg, evs, evs.len() as int) == run_state(cfg, evs),
{
    assert(evs.take(evs.len() as int) =~= evs);
}

/// Consuming event `i` of a trace steps the run by one transition.
pub proof fn lemma_state_at_unfold(cfg: Seq<usize>, evs: Seq<Event>, i: int)
    requires
        0 <= i < evs.len(),
    ensures
        state_at(cfg, evs, i + 1) == spec_step(cfg, state_at(cfg, evs, i), evs[i]),
{
    assert(evs.take(i + 1).drop_last() =~= evs.take(i));
    assert(evs.take(i + 1).last() == evs[i]);
}

/// A prefix of a well-formed trace is well formed.
pub proof fn lemma_wf_prefix(cfg: Seq<usize>, evs: Seq<Event>, n: int)
    requires
        wf_events(cfg, evs),
        0 <= n <= evs.len(),
    ensures
        wf_events(cfg, evs.take(n)),
{
    assert forall|i: int| 0 <= i < n implies #[trigger] feeds(
        state_at(cfg, evs.take(n), i),
        evs.take(n)[i],
    ) by {
        lemma_state_at_prefix(cfg, evs, n, i);
        assert(evs.take(n)[i] == evs[i]);
        assert(feeds(state_at(cfg, evs, i), evs[i]));
    }
}

/// A well-formed trace stays well formed when the event that answers the
/// final state's call is appended.
pub proof fn lemma_wf_push(cfg: Seq<usize>, evs: Seq<Event>, e: Event)
    requires
        wf_events(cfg, evs),
        feeds(run_state(cfg, evs), e),
    ensures
        wf_events(cfg, evs.push(e)),
{
    let evs2 = evs.push(e);
    assert forall|i: int| 0 <= i < evs2.len() implies #[trigger] feeds(
        state_at(cfg, evs2, i),
        evs2[i],
    ) by {
        lemma_state_at_push(cfg, evs, e, i);
        if i < evs.len() {
            assert(evs2[i] == evs[i]);
            assert(feeds(state_at(cfg, evs, i), evs[i]));
        } else {
            lemma_state_at_end(cfg, evs);
            assert(evs2[i] == e);
        }
    }
}

/// One answered call preserves the scan bound and strictly lowers the rank.
pub proof fn lemma_step_progress(cfg: Seq<usize>, s: RoundState, e: Event)
    requires
        state_inv(cfg, s),
        feeds(s, e),
    ensures
        state_inv(cfg, spec_step(cfg, s, e)),
        0 <= rank(cfg, spec_step(cfg, s, e)) < rank(cfg, s),
{
    let s2 = spec_step(cfg, s, e);
    match s {
        RoundState::Start => {
            assert(0 <= rank(cfg, s2) < rank(cfg, s));
        },
        RoundState::Scan { idx } => {
            assert(idx < cfg.len());
            assert(0 <= rank(cfg, s2) < rank(cfg, s));
        },
        _ => {
            assert(0 <= rank(cfg, s2) < rank(cfg, s));
        },
    }
}

} // verus!
