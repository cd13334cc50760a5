use std::cell::RefCell;
use std::sync::mpsc;
use std::time::Duration;

use dummy_prover::config::DummyProverConfig;
use dummy_prover::job::{
    ApiError, BabyProverError, EncodedProofPlonk, ProverData, ProverHeartbeat, ProverJob,
};
use dummy_prover::round::{ApiClient, DummyProver};

/// Everything the scripted client observed, in order.  Heartbeats are
/// drained from the channel at the start of every call, so a `Heartbeat`
/// entry sits before the first call that was made after it was delivered.
#[derive(Debug, Clone, PartialEq)]
enum Observed {
    MultiblockToProve,
    BlockToProve(usize),
    MultiblockData(u64, u64),
    PublishMultiblock(u64, u64),
    BlockData(u64),
    PublishBlock(u64),
    Heartbeat(ProverHeartbeat),
}

struct ScriptedClient {
    multiblock: Result<Option<((u64, u64), u32)>, String>,
    blocks: Vec<(usize, Result<Option<(u64, u32)>, String>)>,
    multiblock_data: Result<(), String>,
    publish_multiblock: Result<(), String>,
    block_data: Result<(), String>,
    publish_block: Result<(), String>,
    observed: RefCell<Vec<Observed>>,
    hb_rx: Option<mpsc::Receiver<ProverHeartbeat>>,
}

impl ScriptedClient {
    fn new(
        multiblock: Result<Option<((u64, u64), u32)>, String>,
        blocks: Vec<(usize, Result<Option<(u64, u32)>, String>)>,
        hb_rx: Option<mpsc::Receiver<ProverHeartbeat>>,
    ) -> Self {
        ScriptedClient {
            multiblock,
            blocks,
            multiblock_data: Ok(()),
            publish_multiblock: Ok(()),
            block_data: Ok(()),
            publish_block: Ok(()),
            observed: RefCell::new(Vec::new()),
            hb_rx,
        }
    }

    fn drain(&self) {
        if let Some(rx) = &self.hb_rx {
            while let Ok(hb) = rx.try_recv() {
                self.observed.borrow_mut().push(Observed::Heartbeat(hb));
            }
        }
    }

    fn note(&self, o: Observed) {
        self.drain();
        self.observed.borrow_mut().push(o);
    }

    fn finish(&self) -> Vec<Observed> {
        self.drain();
        self.observed.borrow().clone()
    }
}

impl ApiClient for ScriptedClient {
    fn multiblock_to_prove(&self) -> Result<Option<((u64, u64), u32)>, String> {
        self.note(Observed::MultiblockToProve);
        self.multiblock.clone()
    }

    fn prover_multiblock_data(&self, block_from: u64, block_to: u64) -> Result<ProverData, String> {
        self.note(Observed::MultiblockData(block_from, block_to));
        self.multiblock_data
            .clone()
            .map(|()| ProverData { witness: Vec::new() })
    }

    fn publish_multiblock(
        &self,
        block_from: u64,
        block_to: u64,
        _proof_artifact: EncodedProofPlonk,
    ) -> Result<(), String> {
        self.note(Observed::PublishMultiblock(block_from, block_to));
        self.publish_multiblock.clone()
    }

    fn block_to_prove(&self, block_size: usize) -> Result<Option<(u64, u32)>, String> {
        self.note(Observed::BlockToProve(block_size));
        for (size, answer) in &self.blocks {
            if *size == block_size {
                return answer.clone();
            }
        }
        Ok(None)
    }

    fn prover_block_data(&self, block: u64) -> Result<ProverData, String> {
        self.note(Observed::BlockData(block));
        self.block_data
            .clone()
            .map(|()| ProverData { witness: Vec::new() })
    }

    fn publish_block(&self, block: u64, _proof_artifact: EncodedProofPlonk) -> Result<(), String> {
        self.note(Observed::PublishBlock(block));
        self.publish_block.clone()
    }
}

fn prover_with(
    client: ScriptedClient,
    sizes: Vec<usize>,
) -> DummyProver<ScriptedClient> {
    DummyProver::create_from_config(
        DummyProverConfig::new(sizes),
        client,
        Duration::from_secs(1),
    )
}

#[test]
fn multiblock_takes_priority() {
    let (tx, rx) = mpsc::channel();
    let client = ScriptedClient::new(
        Ok(Some(((5, 10), 42))),
        vec![(10, Ok(None)), (50, Ok(None))],
        Some(rx),
    );
    let prover = prover_with(client, vec![10, 50]);
    let r = prover.next_round(tx);
    assert!(r.is_ok());
    assert_eq!(
        prover.api_client.finish(),
        vec![
            Observed::MultiblockToProve,
            Observed::Heartbeat(ProverHeartbeat::WorkingOn(ProverJob::MultiblockProve(42))),
            Observed::MultiblockData(5, 10),
            Observed::PublishMultiblock(5, 10),
        ]
    );
}

#[test]
fn first_match_wins() {
    let (tx, rx) = mpsc::channel();
    let client = ScriptedClient::new(
        Ok(None),
        vec![(10, Ok(None)), (50, Ok(Some((123, 7))))],
        Some(rx),
    );
    let prover = prover_with(client, vec![10, 50]);
    let r = prover.next_round(tx);
    assert!(r.is_ok());
    assert_eq!(
        prover.api_client.finish(),
        vec![
            Observed::MultiblockToProve,
            Observed::BlockToProve(10),
            Observed::BlockToProve(50),
            Observed::Heartbeat(ProverHeartbeat::WorkingOn(ProverJob::BlockProve(7))),
            Observed::BlockData(123),
            Observed::PublishBlock(123),
        ]
    );
}

#[test]
fn scan_stops_at_first_job() {
    let (tx, rx) = mpsc::channel();
    let client = ScriptedClient::new(
        Ok(None),
        vec![(10, Ok(Some((77, 4)))), (50, Ok(Some((88, 5))))],
        Some(rx),
    );
    let prover = prover_with(client, vec![10, 50]);
    let r = prover.next_round(tx);
    assert!(r.is_ok());
    assert_eq!(
        prover.api_client.finish(),
        vec![
            Observed::MultiblockToProve,
            Observed::BlockToProve(10),
            Observed::Heartbeat(ProverHeartbeat::WorkingOn(ProverJob::BlockProve(4))),
            Observed::BlockData(77),
            Observed::PublishBlock(77),
        ]
    );
}

#[test]
fn idle_round_sends_sentinel_heartbeat() {
    let (tx, rx) = mpsc::channel();
    let client = ScriptedClient::new(
        Ok(None),
        vec![(10, Ok(None)), (50, Ok(None))],
        Some(rx),
    );
    let prover = prover_with(client, vec![10, 50]);
    let r = prover.next_round(tx);
    assert!(r.is_ok());
    assert_eq!(
        prover.api_client.finish(),
        vec![
            Observed::MultiblockToProve,
            Observed::BlockToProve(10),
            Observed::BlockToProve(50),
            Observed::Heartbeat(ProverHeartbeat::WorkingOn(ProverJob::BlockProve(0))),
        ]
    );
}

#[test]
fn sentinel_job_id_is_skipped() {
    // A real block number with job id 0 counts as "no job": the scan moves on.
    let (tx, rx) = mpsc::channel();
    let client = ScriptedClient::new(
        Ok(None),
        vec![(10, Ok(Some((55, 0)))), (50, Ok(None))],
        Some(rx),
    );
    let prover = prover_with(client, vec![10, 50]);
    let r = prover.next_round(tx);
    assert!(r.is_ok());
    assert_eq!(
        prover.api_client.finish(),
        vec![
            Observed::MultiblockToProve,
            Observed::BlockToProve(10),
            Observed::BlockToProve(50),
            Observed::Heartbeat(ProverHeartbeat::WorkingOn(ProverJob::BlockProve(0))),
        ]
    );
}

#[test]
fn publish_failure_names_block_and_operation() {
    let (tx, rx) = mpsc::channel();
    let mut client = ScriptedClient::new(
        Ok(None),
        vec![(10, Ok(Some((9, 3))))],
        Some(rx),
    );
    client.publish_block = Err("transport error".to_string());
    let prover = prover_with(client, vec![10]);
    let r = prover.next_round(tx);
    match r {
        Err(BabyProverError::Api(ApiError::PublishBlock { block, detail })) => {
            assert_eq!(block, 9);
            assert_eq!(detail, "transport error");
        }
        other => panic!("expected a publish failure, got {:?}", other),
    }
    // The heartbeat went out before the failing publish call.
    assert_eq!(
        prover.api_client.finish(),
        vec![
            Observed::MultiblockToProve,
            Observed::BlockToProve(10),
            Observed::Heartbeat(ProverHeartbeat::WorkingOn(ProverJob::BlockProve(3))),
            Observed::BlockData(9),
            Observed::PublishBlock(9),
        ]
    );
}

#[test]
fn multiblock_query_failure_is_classified() {
    let (tx, _rx) = mpsc::channel();
    let client = ScriptedClient::new(Err("boom".to_string()), vec![], None);
    let prover = prover_with(client, vec![10]);
    let r = prover.next_round(tx);
    match r {
        Err(BabyProverError::Api(ApiError::MultiblockToProve { detail })) => {
            assert_eq!(detail, "boom");
        }
        other => panic!("expected a multiblock query failure, got {:?}", other),
    }
}

#[test]
fn multiblock_data_failure_names_range() {
    let (tx, rx) = mpsc::channel();
    let mut client = ScriptedClient::new(Ok(Some(((5, 10), 42))), vec![], Some(rx));
    client.multiblock_data = Err("no data".to_string());
    let prover = prover_with(client, vec![10, 50]);
    let r = prover.next_round(tx);
    match r {
        Err(BabyProverError::Api(ApiError::MultiblockData { block_from, block_to, detail })) => {
            assert_eq!((block_from, block_to), (5, 10));
            assert_eq!(detail, "no data");
        }
        other => panic!("expected a multiblock data failure, got {:?}", other),
    }
}

#[test]
fn block_query_failure_names_size_class() {
    let (tx, _rx) = mpsc::channel();
    let client = ScriptedClient::new(
        Ok(None),
        vec![(10, Ok(None)), (50, Err("offline".to_string()))],
        None,
    );
    let prover = prover_with(client, vec![10, 50]);
    let r = prover.next_round(tx);
    match r {
        Err(BabyProverError::Api(ApiError::BlockToProve { chunks, detail })) => {
            assert_eq!(chunks, 50);
            assert_eq!(detail, "offline");
        }
        other => panic!("expected a block query failure, got {:?}", other),
    }
}

#[test]
fn closed_channel_halts_before_multiblock_work() {
    let (tx, rx) = mpsc::channel();
    drop(rx);
    let client = ScriptedClient::new(Ok(Some(((5, 10), 42))), vec![], None);
    let prover = prover_with(client, vec![10, 50]);
    let r = prover.next_round(tx);
    assert!(matches!(r, Err(BabyProverError::HeartbeatLost)));
    // No data was fetched and nothing was published for the claimed job.
    assert_eq!(prover.api_client.finish(), vec![Observed::MultiblockToProve]);
}

#[test]
fn closed_channel_halts_before_block_work() {
    let (tx, rx) = mpsc::channel();
    drop(rx);
    let client = ScriptedClient::new(Ok(None), vec![(10, Ok(Some((9, 3))))], None);
    let prover = prover_with(client, vec![10]);
    let r = prover.next_round(tx);
    assert!(matches!(r, Err(BabyProverError::HeartbeatLost)));
    assert_eq!(
        prover.api_client.finish(),
        vec![Observed::MultiblockToProve, Observed::BlockToProve(10)]
    );
}

#[test]
fn empty_configuration_is_idle() {
    let (tx, rx) = mpsc::channel();
    let client = ScriptedClient::new(Ok(None), vec![], Some(rx));
    let prover = prover_with(client, vec![]);
    let r = prover.next_round(tx);
    assert!(r.is_ok());
    assert_eq!(
        prover.api_client.finish(),
        vec![
            Observed::MultiblockToProve,
            Observed::Heartbeat(ProverHeartbeat::WorkingOn(ProverJob::BlockProve(0))),
        ]
    );
}

#[test]
fn heartbeat_options_hand_back_interval() {
    let client = ScriptedClient::new(Ok(None), vec![], None);
    let prover = prover_with(client, vec![10]);
    let (_client_ref, interval) = prover.get_heartbeat_options();
    assert_eq!(interval, Duration::from_secs(1));
}
