use marketplace_solver::state::{
    ingest_step, ConsensusEvent, IngestStep, PeerConfig, SolverState, StartupInfo,
};

#[test]
fn startup_snapshot_seeds_state() {
    let nodes: Vec<PeerConfig> = (0..10u8)
        .map(|i| PeerConfig { stake_key: vec![i; 96], stake_amount: 1, state_ver_key: vec![i; 64] })
        .collect();
    let state = SolverState::from_startup_info(StartupInfo {
        known_node_with_stake: nodes.clone(),
        non_staked_node_count: 10,
    });
    assert_eq!(state.stake_table.known_nodes_with_stake.len(), 10);
    assert_eq!(state.stake_table.known_nodes_with_stake[3].stake_key, nodes[3].stake_key);
    assert!(state.bid_txs.is_empty());
}

#[test]
fn ingest_steps() {
    assert_eq!(
        ingest_step(&Some(Ok(ConsensusEvent::ViewFinished { view_number: 4 }))),
        IngestStep::Continue { finished_view: Some(4) }
    );
    assert_eq!(ingest_step(&Some(Ok(ConsensusEvent::Other))), IngestStep::Continue { finished_view: None });
    assert_eq!(ingest_step(&Some(Err("closed".to_string()))), IngestStep::Fail);
    assert_eq!(ingest_step(&None), IngestStep::Finish);
}
