use halom_core::authority::Origin;
use halom_core::governance::{Parameter, ProposalStatus};
use halom_core::oracle::{Error, GenesisConfig, OracleConfig, OracleState};

fn new_test_ext() -> OracleState {
    let config = OracleConfig {
        min_update_interval: 10,
        max_update_interval: 100,
        min_sources_for_consensus: 2,
        voting_period: 50,
        required_majority: 66,
        council: vec![1, 2, 3],
    };
    let genesis = GenesisConfig {
        initial_sources: vec![b"KSH".to_vec(), b"MNB".to_vec(), b"EUROSTAT".to_vec()],
    };
    genesis.build(config)
}

#[test]
fn test_propose_parameter_change() {
    let mut oracle = new_test_ext();

    // A council member can open a proposal
    assert!(oracle
        .propose_parameter_change(Origin::Signed(1), Parameter::MinSources(3), 1)
        .is_ok());

    // A non-member cannot
    assert_eq!(
        oracle.propose_parameter_change(Origin::Signed(4), Parameter::MinSources(3), 1),
        Err(Error::NotCouncilMember)
    );

    // An out-of-bounds value is rejected before anything is written
    assert_eq!(
        oracle.propose_parameter_change(Origin::Signed(1), Parameter::MinSources(11), 1),
        Err(Error::InvalidMinSources)
    );
}

#[test]
fn test_vote_on_proposal() {
    let mut oracle = new_test_ext();

    assert!(oracle
        .propose_parameter_change(Origin::Signed(1), Parameter::MinSources(3), 1)
        .is_ok());

    // Another council member votes
    assert!(oracle.vote_on_proposal(Origin::Signed(2), 0, true, 1).is_ok());

    // Voting again is rejected
    assert_eq!(
        oracle.vote_on_proposal(Origin::Signed(2), 0, true, 1),
        Err(Error::AlreadyVoted)
    );

    // A non-member cannot vote
    assert_eq!(
        oracle.vote_on_proposal(Origin::Signed(4), 0, true, 1),
        Err(Error::NotCouncilMember)
    );
}

#[test]
fn test_proposal_approval() {
    let mut oracle = new_test_ext();

    assert!(oracle
        .propose_parameter_change(Origin::Signed(1), Parameter::MinSources(3), 1)
        .is_ok());

    // 66% of the 3 council members is 2 votes; the proposer already
    // counts in favour, so one more vote approves
    assert!(oracle.vote_on_proposal(Origin::Signed(2), 0, true, 1).is_ok());

    let updated = oracle.proposals(0).unwrap();
    assert_eq!(updated.status, ProposalStatus::Approved);
    assert_eq!(oracle.min_sources(), 3);
}

#[test]
fn test_proposal_rejection() {
    let mut oracle = new_test_ext();

    assert!(oracle
        .propose_parameter_change(Origin::Signed(1), Parameter::MinSources(3), 1)
        .is_ok());

    // Two votes against
    assert!(oracle.vote_on_proposal(Origin::Signed(2), 0, false, 1).is_ok());
    assert!(oracle.vote_on_proposal(Origin::Signed(3), 0, false, 1).is_ok());

    let updated = oracle.proposals(0).unwrap();
    assert_eq!(updated.status, ProposalStatus::Rejected);

    // The parameter stays unchanged
    assert_eq!(oracle.min_sources(), 2);
}

#[test]
fn test_proposal_expiry() {
    let mut oracle = new_test_ext();

    // Opened at block 0 with a voting period of 50
    assert!(oracle
        .propose_parameter_change(Origin::Signed(1), Parameter::MinSources(3), 0)
        .is_ok());

    // A vote past the deadline is rejected, whatever it would say
    assert_eq!(
        oracle.vote_on_proposal(Origin::Signed(2), 0, true, 51),
        Err(Error::ProposalExpired)
    );
    assert_eq!(
        oracle.vote_on_proposal(Origin::Signed(3), 0, false, 51),
        Err(Error::ProposalExpired)
    );
}

#[test]
fn test_vote_on_missing_proposal() {
    let mut oracle = new_test_ext();

    assert_eq!(
        oracle.vote_on_proposal(Origin::Signed(1), 0, true, 1),
        Err(Error::ProposalNotFound)
    );
}

#[test]
fn test_propose_interval_bounds() {
    let mut oracle = new_test_ext();

    assert_eq!(
        oracle.propose_parameter_change(Origin::Signed(1), Parameter::UpdateInterval(5), 1),
        Err(Error::UpdateIntervalTooLow)
    );
    assert_eq!(
        oracle.propose_parameter_change(Origin::Signed(1), Parameter::UpdateInterval(200), 1),
        Err(Error::UpdateIntervalTooHigh)
    );
    assert_eq!(
        oracle.propose_parameter_change(Origin::Signed(1), Parameter::ConsensusThreshold(0), 1),
        Err(Error::InvalidParameterValue)
    );
    assert_eq!(
        oracle.propose_parameter_change(Origin::Signed(1), Parameter::ConsensusThreshold(101), 1),
        Err(Error::InvalidParameterValue)
    );
}

#[test]
fn test_enacted_interval_changes_gate() {
    let mut oracle = new_test_ext();

    // Approve an update-interval change to 20
    assert!(oracle
        .propose_parameter_change(Origin::Signed(1), Parameter::UpdateInterval(20), 1)
        .is_ok());
    assert!(oracle.vote_on_proposal(Origin::Signed(2), 0, true, 1).is_ok());
    assert_eq!(oracle.update_interval(), 20);

    // The new interval governs the rate limit
    assert!(oracle.submit_hoi(Origin::Signed(1), 105, 30).is_ok());
    assert_eq!(
        oracle.submit_hoi(Origin::Signed(1), 110, 49),
        Err(Error::TooEarlyToUpdate)
    );
    assert!(oracle.submit_hoi(Origin::Signed(1), 110, 50).is_ok());
}

#[test]
fn test_consensus_threshold_enactment_is_noop() {
    let mut oracle = new_test_ext();

    assert!(oracle
        .propose_parameter_change(Origin::Signed(1), Parameter::ConsensusThreshold(80), 1)
        .is_ok());
    assert!(oracle.vote_on_proposal(Origin::Signed(2), 0, true, 1).is_ok());

    // The proposal is approved, but no registry field changes
    assert_eq!(oracle.proposals(0).unwrap().status, ProposalStatus::Approved);
    assert_eq!(oracle.update_interval(), 10);
    assert_eq!(oracle.min_sources(), 2);
}

#[test]
fn test_proposal_records_votes() {
    let mut oracle = new_test_ext();

    assert!(oracle
        .propose_parameter_change(Origin::Signed(2), Parameter::MinSources(4), 7)
        .is_ok());

    let p = oracle.proposals(0).unwrap();
    assert_eq!(p.proposer, 2);
    assert_eq!(p.votes_for, vec![2]);
    assert!(p.votes_against.is_empty());
    assert_eq!(p.end_block, 57);
    assert_eq!(p.status, ProposalStatus::Active);
}
