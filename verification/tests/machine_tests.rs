use dummy_prover::config::DummyProverConfig;
use dummy_prover::job::{ApiError, EncodedProofPlonk};
use dummy_prover::machine::{step, Event, RoundState};

fn cfg(sizes: Vec<usize>) -> DummyProverConfig {
    DummyProverConfig::new(sizes)
}

#[test]
fn start_with_multiblock_answer() {
    let c = cfg(vec![10, 50]);
    let s = step(
        &c,
        RoundState::Start,
        Event::MultiblockAnswer { answer: Some(((5, 10), 42)) },
    );
    assert_eq!(
        s,
        RoundState::MultiHeartbeat { block_from: 5, block_to: 10, job_id: 42 }
    );
}

#[test]
fn start_without_multiblock_scans_first_class() {
    let c = cfg(vec![10, 50]);
    let s = step(&c, RoundState::Start, Event::MultiblockAnswer { answer: None });
    assert_eq!(s, RoundState::Scan { idx: 0 });
}

#[test]
fn start_without_multiblock_and_empty_config() {
    let c = cfg(vec![]);
    let s = step(&c, RoundState::Start, Event::MultiblockAnswer { answer: None });
    assert_eq!(s, RoundState::BlockHeartbeat { block: 0, job_id: 0 });
}

#[test]
fn scan_moves_to_next_class_on_no_answer() {
    let c = cfg(vec![10, 50]);
    let s = step(&c, RoundState::Scan { idx: 0 }, Event::BlockAnswer { answer: None });
    assert_eq!(s, RoundState::Scan { idx: 1 });
}

#[test]
fn scan_treats_job_id_zero_as_no_answer() {
    let c = cfg(vec![10, 50]);
    let s = step(
        &c,
        RoundState::Scan { idx: 0 },
        Event::BlockAnswer { answer: Some((55, 0)) },
    );
    assert_eq!(s, RoundState::Scan { idx: 1 });
}

#[test]
fn scan_selects_job_immediately() {
    let c = cfg(vec![10, 50]);
    let s = step(
        &c,
        RoundState::Scan { idx: 0 },
        Event::BlockAnswer { answer: Some((123, 7)) },
    );
    assert_eq!(s, RoundState::BlockHeartbeat { block: 123, job_id: 7 });
}

#[test]
fn exhausted_scan_falls_back_to_sentinel() {
    let c = cfg(vec![10, 50]);
    let s = step(&c, RoundState::Scan { idx: 1 }, Event::BlockAnswer { answer: None });
    assert_eq!(s, RoundState::BlockHeartbeat { block: 0, job_id: 0 });
}

#[test]
fn sentinel_heartbeat_finishes_round() {
    let c = cfg(vec![10]);
    let s = step(
        &c,
        RoundState::BlockHeartbeat { block: 0, job_id: 0 },
        Event::HeartbeatSent { delivered: true },
    );
    assert_eq!(s, RoundState::Done);
}

#[test]
fn refused_heartbeat_is_a_wiring_fault() {
    let c = cfg(vec![10]);
    let s = step(
        &c,
        RoundState::MultiHeartbeat { block_from: 5, block_to: 10, job_id: 42 },
        Event::HeartbeatSent { delivered: false },
    );
    assert_eq!(s, RoundState::Lost);
}

#[test]
fn delivered_heartbeat_precedes_fetch() {
    let c = cfg(vec![10]);
    let s = step(
        &c,
        RoundState::BlockHeartbeat { block: 9, job_id: 3 },
        Event::HeartbeatSent { delivered: true },
    );
    assert_eq!(s, RoundState::BlockFetch { block: 9, job_id: 3 });
}

#[test]
fn failed_scan_query_records_size_class() {
    let c = cfg(vec![10, 50]);
    let s = step(
        &c,
        RoundState::Scan { idx: 1 },
        Event::ApiFailed { detail: "offline".to_string() },
    );
    assert_eq!(
        s,
        RoundState::Failed {
            error: ApiError::BlockToProve { chunks: 50, detail: "offline".to_string() }
        }
    );
}

#[test]
fn failed_multiblock_publish_records_range() {
    let c = cfg(vec![10]);
    let s = step(
        &c,
        RoundState::MultiPublish { block_from: 5, block_to: 10, job_id: 42 },
        Event::ApiFailed { detail: "rejected".to_string() },
    );
    assert_eq!(
        s,
        RoundState::Failed {
            error: ApiError::PublishMultiblock {
                block_from: 5,
                block_to: 10,
                detail: "rejected".to_string()
            }
        }
    );
}

#[test]
fn full_single_block_walk() {
    let c = cfg(vec![10, 50]);
    let mut s = RoundState::Start;
    s = step(&c, s, Event::MultiblockAnswer { answer: None });
    s = step(&c, s, Event::BlockAnswer { answer: None });
    s = step(&c, s, Event::BlockAnswer { answer: Some((123, 7)) });
    s = step(&c, s, Event::HeartbeatSent { delivered: true });
    s = step(&c, s, Event::Fetched);
    assert_eq!(s, RoundState::BlockPublish { block: 123, job_id: 7 });
    s = step(&c, s, Event::Published);
    assert_eq!(s, RoundState::Done);
}

#[test]
fn default_proof_artifact_is_empty() {
    let artifact = EncodedProofPlonk::default();
    assert!(artifact.words.is_empty());
}

#[test]
fn config_keeps_listed_order() {
    let c = DummyProverConfig::new(vec![50, 10, 200]);
    assert_eq!(c.block_sizes, vec![50, 10, 200]);
}
