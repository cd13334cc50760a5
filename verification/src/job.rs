use vstd::prelude::*;

verus! {

/// The category of work a round has claimed.  A job identifier of `0` is the
/// reserved sentinel meaning "no job available".
#[derive(Debug, Clone, Copy, PartialEq, Eq, Structural)]
pub enum ProverJob {
    MultiblockProve(u32),
    BlockProve(u32),
}

/// The message sent to the liveness-reporting process, exactly once per
/// round, naming the job the round is working on (possibly the sentinel).
#[derive(Debug, Clone, Copy, PartialEq, Eq, Structural)]
pub enum ProverHeartbeat {
    WorkingOn(ProverJob),
}

/// A failed call into the coordination service, tagged with the operation
/// and the identifiers of the job it concerned.
#[derive(Debug, Clone, PartialEq)]
pub enum ApiError {
    /// The query for a multiblock job failed.
    MultiblockToProve { detail: String },
    /// Fetching the input data of the multiblock `[block_from; block_to]` failed.
    MultiblockData { block_from: u64, block_to: u64, detail: String },
    /// Publishing the proof of the multiblock `[block_from; block_to]` failed.
    PublishMultiblock { block_from: u64, block_to: u64, detail: String },
    /// The query for a single-block job of size class `chunks` failed.
    BlockToProve { chunks: usize, detail: String },
    /// Fetching the input data of `block` failed.
    BlockData { block: u64, detail: String },
    /// Publishing the proof of `block` failed.
    PublishBlock { block: u64, detail: String },
}

/// What a round can fail with.
#[derive(Debug, Clone)]
pub enum BabyProverError {
    /// A coordination-service call failed; the driver may retry next round.
    Api(ApiError),
    /// The heartbeat channel would not accept a message.  This is a wiring
    /// fault: the driver must halt the worker, since in-progress jobs are no
    /// longer protected from reassignment.
    HeartbeatLost,
}

/// The proof artifact published back to the coordination service.  The round
/// controller merely forwards it; in this prover no real computation occurs
/// and a default artifact stands in for a real one.
#[derive(Debug, Clone)]
pub struct EncodedProofPlonk {
    pub words: Vec<u64>,
}

impl Default for EncodedProofPlonk {
    fn default() -> (r: Self)
        ensures
            r.words@.len() == 0,
    {
        EncodedProofPlonk { words: Vec::new() }
    }
}

/// The input data of a claimed job, fetched before the proof is computed.
/// The round controller only retrieves it and hands it on; its content does
/// not influence the round.
#[derive(Debug, Clone)]
pub struct ProverData {
    pub witness: Vec<u64>,
}

} // verus!
