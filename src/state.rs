use vstd::prelude::*;

use std::collections::HashMap;

use crate::types::SignatureKey;

verus! {

/// A consensus participant and its voting power.
#[derive(Clone, Debug)]
pub struct PeerConfig {
    /// The participant's staking key, in its canonical byte form.
    pub stake_key: Vec<u8>,
    pub stake_amount: u64,
    /// The participant's light-client state verification key.
    pub state_ver_key: Vec<u8>,
}

/// The consensus stake table: participants with their stake, in order.
pub struct StakeTable {
    pub known_nodes_with_stake: Vec<PeerConfig>,
}

/// What the consensus event service reports at startup.
pub struct StartupInfo {
    pub known_node_with_stake: Vec<PeerConfig>,
    pub non_staked_node_count: usize,
}

/// The solver's in-memory view of consensus: the stake table snapshot and
/// the bids pending per view, each view mapping to the builder keys that bid,
/// each key at most once (see `wf`).
pub struct SolverState {
    pub stake_table: StakeTable,
    pub bid_txs: HashMap<u64, Vec<SignatureKey>>,
}

/// No key occurs twice in `keys`.
pub open spec fn distinct_keys(keys: Seq<SignatureKey>) -> bool {
    forall|i: int, j: int|
        0 <= i < keys.len() && 0 <= j < keys.len() && i != j ==> keys[i]@ != keys[j]@
}

impl SolverState {
    /// Well-formed: within each view, a builder key has at most one pending bid.
    pub open spec fn wf(&self) -> bool {
        forall|v: u64| #[trigger] self.bid_txs@.contains_key(v) ==> distinct_keys(self.bid_txs@[v]@)
    }

    /// The state at startup: the snapshot's stake table and no pending bids.
    pub fn from_startup_info(info: StartupInfo) -> (r: SolverState)
        ensures
            r.stake_table.known_nodes_with_stake@ == info.known_node_with_stake@,
            r.bid_txs@ == Map::<u64, Vec<SignatureKey>>::empty(),
            r.wf(),
    {
        SolverState {
            stake_table: StakeTable { known_nodes_with_stake: info.known_node_with_stake },
            bid_txs: HashMap::new(),
        }
    }
}

/// An event of the consensus stream, as far as the solver reads it.
pub enum ConsensusEvent {
    /// Consensus finished a view.
    ViewFinished { view_number: u64 },
    /// Any other event; the solver does not act on it yet.
    Other,
}

/// What the ingest task does after receiving from the event stream.
#[derive(PartialEq, Eq, Structural, Clone, Copy, Debug)]
pub enum IngestStep {
    /// Keep reading; a finished view, if the event reported one, is noted.
    Continue { finished_view: Option<u64> },
    /// The stream ended: the task ends without error.
    Finish,
    /// The stream failed: the task ends with the error.
    Fail,
}

/// Decides the ingest task's next step from what the stream yielded: an
/// event, an error, or its end.
pub fn ingest_step(received: &Option<Result<ConsensusEvent, String>>) -> (r: IngestStep)
    ensures
        r == match received {
            None => IngestStep::Finish,
            Some(Err(_)) => IngestStep::Fail,
            Some(Ok(ConsensusEvent::ViewFinished { view_number })) => IngestStep::Continue {
                finished_view: Some(*view_number),
            },
            Some(Ok(ConsensusEvent::Other)) => IngestStep::Continue { finished_view: None },
        },
{
    match received {
        None => IngestStep::Finish,
        Some(Err(_)) => IngestStep::Fail,
        Some(Ok(ConsensusEvent::ViewFinished { view_number })) => IngestStep::Continue {
            finished_view: Some(*view_number),
        },
        Some(Ok(ConsensusEvent::Other)) => IngestStep::Continue { finished_view: None },
    }
}

} // verus!
