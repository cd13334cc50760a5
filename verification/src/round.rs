use vstd::prelude::*;

use crate::config::DummyProverConfig;
use crate::job::{BabyProverError, EncodedProofPlonk, ProverData, ProverHeartbeat, ProverJob};
use crate::machine::{
    complete_run, feeds, lemma_run_push, lemma_step_progress, lemma_wf_push, rank,
    round_result_consistent, run_outcome, run_state, state_inv, step, wf_events, Event,
    RoundState,
};
use std::sync::mpsc::Sender;
use std::time::Duration;

verus! {

/// The coordination-service capability that the round controller consumes.
/// A job identifier of `0` in an answer counts as "no job", the same as a
/// missing answer.  Concrete implementations — a network client, a test
/// double — live outside this crate; nothing is assumed of their answers.
pub trait ApiClient {
    /// Asks for an available multiblock job: a block range and a job
    /// identifier.
    fn multiblock_to_prove(&self) -> Result<Option<((u64, u64), u32)>, String>;

    /// Fetches the input data of a claimed multiblock.
    fn prover_multiblock_data(&self, block_from: u64, block_to: u64) -> Result<ProverData, String>;

    /// Publishes the proof artifact of a multiblock.
    fn publish_multiblock(
        &self,
        block_from: u64,
        block_to: u64,
        proof_artifact: EncodedProofPlonk,
    ) -> Result<(), String>;

    /// Asks for an available single-block job of the given size class.
    fn block_to_prove(&self, block_size: usize) -> Result<Option<(u64, u32)>, String>;

    /// Fetches the input data of a claimed single block.
    fn prover_block_data(&self, block: u64) -> Result<ProverData, String>;

    /// Publishes the proof artifact of a single block.
    fn publish_block(&self, block: u64, proof_artifact: EncodedProofPlonk) -> Result<(), String>;
}

/// Declares `std::sync::mpsc::Sender` — the sending half of the heartbeat
/// channel — so that it can stand in verified signatures.  The type is
/// opaque to Verus; only `send_heartbeat` below touches it.
#[verifier::external_type_specification]
#[verifier::external_body]
#[verifier::reject_recursive_types(T)]
pub struct ExSender<T>(Sender<T>);

/// Relies on `std::sync::mpsc::Sender::send`: the message is delivered to
/// the receiving side unless the channel is disconnected, and the returned
/// `Result` tells which of the two happened.
#[verifier::external_body]
fn send_heartbeat(tx: &Sender<ProverHeartbeat>, heartbeat: ProverHeartbeat) -> (delivered: bool) {
    tx.send(heartbeat).is_ok()
}

/// The prover: a borrowed coordination-service client, the interval at
/// which the liveness process reports, and the size-class configuration.
pub struct DummyProver<C: ApiClient> {
    pub api_client: C,
    pub heartbeat_interval: Duration,
    pub config: DummyProverConfig,
}

impl<C: ApiClient> DummyProver<C> {
    /// Assembles a prover from its configuration and client.
    pub fn create_from_config(
        config: DummyProverConfig,
        api_client: C,
        heartbeat_interval: Duration,
    ) -> (r: Self)
        ensures
            r.config == config,
            r.api_client == api_client,
            r.heartbeat_interval == heartbeat_interval,
    {
        DummyProver { api_client, heartbeat_interval, config }
    }

    /// The handles the liveness-reporting process needs: the client it
    /// reports through and the interval at which it does so.
    pub fn get_heartbeat_options(&self) -> (r: (&C, Duration))
        ensures
            r.0 == &self.api_client,
            r.1 == self.heartbeat_interval,
    {
        (&self.api_client, self.heartbeat_interval)
    }

    /// Runs one round: query for a multiblock job, which always takes
    /// priority; otherwise scan the configured size classes in order and
    /// select the first single-block job offered; send exactly one
    /// heartbeat naming the chosen job (the sentinel `0` when idle) before
    /// any data fetch or publication; then fetch the job's data and publish
    /// its proof artifact.
    ///
    /// The result is the outcome of a complete run of the round machine
    /// (`crate::machine`): a failed service call is classified with the
    /// operation and identifiers involved, and a refused heartbeat surfaces
    /// as [`BabyProverError::HeartbeatLost`], on which the driver must halt
    /// the worker.
    pub fn next_round(&self, start_heartbeats_tx: Sender<ProverHeartbeat>) -> (r: Result<
        (),
        BabyProverError,
    >)
        ensures
            round_result_consistent(self.config.block_sizes@, r),
    {
        let ghost cfg = self.config.block_sizes@;
        let n_sizes: usize = self.config.block_sizes.len();
        proof {
            assert(cfg.len() == n_sizes);
        }
        let mut state = RoundState::Start;
        let ghost mut evs: Seq<Event> = Seq::empty();
        proof {
            assert(evs.take(0) =~= evs);
        }
        loop
            invariant
                cfg == self.config.block_sizes@,
                state == run_state(cfg, evs),
                wf_events(cfg, evs),
                state_inv(cfg, state),
            decreases rank(cfg, state),
        {
            let ghost s0 = state;
            let (cur, ev): (RoundState, Event) = match state {
                RoundState::Done => {
                    proof {
                        assert(complete_run(cfg, evs));
                        assert(run_outcome(cfg, evs) == Ok::<(), BabyProverError>(()));
                    }
                    return Ok(());
                },
                RoundState::Lost => {
                    proof {
                        assert(complete_run(cfg, evs));
                        assert(run_outcome(cfg, evs) == Err::<(), BabyProverError>(
                            BabyProverError::HeartbeatLost,
                        ));
                    }
                    return Err(BabyProverError::HeartbeatLost);
                },
                RoundState::Failed { error } => {
                    proof {
                        assert(complete_run(cfg, evs));
                        assert(run_outcome(cfg, evs) == Err::<(), BabyProverError>(
                            BabyProverError::Api(error),
                        ));
                    }
                    return Err(BabyProverError::Api(error));
                },
                RoundState::Start => {
                    let ev = match self.api_client.multiblock_to_prove() {
                        Ok(answer) => Event::MultiblockAnswer { answer },
                        Err(detail) => Event::ApiFailed { detail },
                    };
                    (RoundState::Start, ev)
                },
                RoundState::MultiHeartbeat { block_from, block_to, job_id } => {
                    let delivered = send_heartbeat(
                        &start_heartbeats_tx,
                        ProverHeartbeat::WorkingOn(ProverJob::MultiblockProve(job_id)),
                    );
                    (
                        RoundState::MultiHeartbeat { block_from, block_to, job_id },
                        Event::HeartbeatSent { delivered },
                    )
                },
                RoundState::MultiFetch { block_from, block_to, job_id } => {
                    let ev = match self.api_client.prover_multiblock_data(block_from, block_to) {
                        Ok(_data) => Event::Fetched,
                        Err(detail) => Event::ApiFailed { detail },
                    };
                    (RoundState::MultiFetch { block_from, block_to, job_id }, ev)
                },
                RoundState::MultiPublish { block_from, block_to, job_id } => {
                    let ev = match self.api_client.publish_multiblock(
                        block_from,
                        block_to,
                        EncodedProofPlonk::default(),
                    ) {
                        Ok(()) => Event::Published,
                        Err(detail) => Event::ApiFailed { detail },
                    };
                    (RoundState::MultiPublish { block_from, block_to, job_id }, ev)
                },
                RoundState::Scan { idx } => {
                    let block_size: usize = self.config.block_sizes[idx];
                    let ev = match self.api_client.block_to_prove(block_size) {
                        Ok(answer) => Event::BlockAnswer { answer },
                        Err(detail) => Event::ApiFailed { detail },
                    };
                    (RoundState::Scan { idx }, ev)
                },
                RoundState::BlockHeartbeat { block, job_id } => {
                    let delivered = send_heartbeat(
                        &start_heartbeats_tx,
                        ProverHeartbeat::WorkingOn(ProverJob::BlockProve(job_id)),
                    );
                    (
                        RoundState::BlockHeartbeat { block, job_id },
                        Event::HeartbeatSent { delivered },
                    )
                },
                RoundState::BlockFetch { block, job_id } => {
                    let ev = match self.api_client.prover_block_data(block) {
                        Ok(_data) => Event::Fetched,
                        Err(detail) => Event::ApiFailed { detail },
                    };
                    (RoundState::BlockFetch { block, job_id }, ev)
                },
                RoundState::BlockPublish { block, job_id } => {
                    let ev = match self.api_client.publish_block(
                        block,
                        EncodedProofPlonk::default(),
                    ) {
                        Ok(()) => Event::Published,
                        Err(detail) => Event::ApiFailed { detail },
                    };
                    (RoundState::BlockPublish { block, job_id }, ev)
                },
            };
            proof {
                assert(cur == s0);
                assert(feeds(cur, ev));
                lemma_wf_push(cfg, evs, ev);
                lemma_run_push(cfg, evs, ev);
                lemma_step_progress(cfg, cur, ev);
                evs = evs.push(ev);
            }
            state = step(&self.config, cur, ev);
        }
    }
}

} // verus!
