use halom_core::authority::{IsCouncilMember, MockCouncilMembers, MockOrigin, Origin};
use halom_core::oracle::{validate_unsigned, Error, Event, GenesisConfig, OracleConfig, OracleState};

fn test_oracle_config() -> OracleConfig {
    OracleConfig {
        min_update_interval: 10,
        max_update_interval: 100,
        min_sources_for_consensus: 2,
        voting_period: 50,
        required_majority: 66,
        council: vec![1, 2, 3],
    }
}

pub fn new_test_ext() -> OracleState {
    let genesis = GenesisConfig {
        initial_sources: vec![b"KSH".to_vec(), b"MNB".to_vec(), b"EUROSTAT".to_vec()],
    };
    genesis.build(test_oracle_config())
}

#[test]
fn test_submit_hoi_value() {
    let mut oracle = new_test_ext();

    // Submitting a valid HOI value succeeds
    assert!(oracle.submit_hoi(Origin::Signed(1), 105, 1).is_ok());

    // The notification was emitted
    assert_eq!(oracle.events.last(), Some(&Event::HOIUpdated { value: 105 }));

    // The state was updated
    assert_eq!(oracle.current_hoi(), 105);
    assert_eq!(oracle.last_update(), 1);
}

#[test]
fn test_invalid_hoi_value() {
    let mut oracle = new_test_ext();

    // Submitting an invalid HOI value (0) is rejected
    assert_eq!(
        oracle.submit_hoi(Origin::Signed(1), 0, 1),
        Err(Error::InvalidHOIValue)
    );
}

#[test]
fn test_update_interval() {
    let mut oracle = new_test_ext();

    // Submit initial value
    assert!(oracle.submit_hoi(Origin::Signed(1), 105, 1).is_ok());

    // should_fetch returns false before the interval has elapsed
    assert!(!oracle.should_fetch(5));

    // should_fetch returns true after the interval has elapsed
    assert!(oracle.should_fetch(12));
}

#[test]
fn test_unsigned_validation() {
    // Unsigned validation with a valid value
    assert!(validate_unsigned(105));

    // Unsigned validation with an invalid value
    assert!(!validate_unsigned(0));
}

#[test]
fn test_submit_source_value() {
    let mut oracle = new_test_ext();

    // Submit a value from the KSH source
    assert!(oracle
        .submit_source_value(Origin::Signed(1), b"KSH".to_vec(), 520, 0)
        .is_ok());

    // The source value is stored
    assert_eq!(oracle.source_values(&b"KSH".to_vec()), 520);

    // A value from a source outside the allow-list is rejected
    assert_eq!(
        oracle.submit_source_value(Origin::Signed(1), b"INVALID".to_vec(), 520, 0),
        Err(Error::InvalidSource)
    );
}

#[test]
fn test_consensus_calculation() {
    let mut oracle = new_test_ext();

    // Submit values from multiple sources
    assert!(oracle
        .submit_source_value(Origin::Signed(1), b"KSH".to_vec(), 520, 0)
        .is_ok());
    assert!(oracle
        .submit_source_value(Origin::Signed(1), b"MNB".to_vec(), 540, 0)
        .is_ok());

    // The consensus value is the integer mean
    assert_eq!(oracle.current_hoi(), 530);
}

#[test]
fn test_oracle_gating_second_submission() {
    let mut oracle = new_test_ext();

    // Accepted at block 20; the interval is 10
    assert!(oracle.submit_hoi(Origin::Signed(1), 105, 20).is_ok());

    // Any earlier block than 30 is still rate-limited
    assert_eq!(
        oracle.submit_hoi(Origin::Signed(1), 200, 29),
        Err(Error::TooEarlyToUpdate)
    );

    // Once the interval elapsed, updates are accepted again
    assert!(oracle.submit_hoi(Origin::Signed(1), 200, 30).is_ok());
    assert_eq!(oracle.current_hoi(), 200);
}

#[test]
fn test_consensus_respects_gate() {
    let mut oracle = new_test_ext();

    // A direct update at block 20 rate-limits updates until block 30
    assert!(oracle.submit_hoi(Origin::Signed(1), 105, 20).is_ok());

    // Two source submissions inside the closed window store their values
    // but do not move the authoritative value
    assert!(oracle
        .submit_source_value(Origin::Signed(1), b"KSH".to_vec(), 520, 25)
        .is_ok());
    assert!(oracle
        .submit_source_value(Origin::Signed(1), b"MNB".to_vec(), 540, 25)
        .is_ok());
    assert_eq!(oracle.current_hoi(), 105);

    // A submission after the window applies the consensus mean
    assert!(oracle
        .submit_source_value(Origin::Signed(1), b"MNB".to_vec(), 540, 30)
        .is_ok());
    assert_eq!(oracle.current_hoi(), 530);
    assert_eq!(oracle.last_update(), 30);
}

#[test]
fn test_try_consensus_insufficient_sources() {
    let mut oracle = new_test_ext();

    assert!(oracle
        .submit_source_value(Origin::Signed(1), b"KSH".to_vec(), 520, 0)
        .is_ok());

    // One submission is below the minimum of two
    assert_eq!(oracle.try_consensus(0), Err(Error::InsufficientSources));
    assert_eq!(oracle.current_hoi(), 0);
}

#[test]
fn test_submit_hoi_bad_origin() {
    let mut oracle = new_test_ext();

    assert_eq!(
        oracle.submit_hoi(Origin::Unsigned, 105, 1),
        Err(Error::BadOrigin)
    );
    assert_eq!(
        oracle.submit_hoi(Origin::Signed(4), 105, 1),
        Err(Error::BadOrigin)
    );
}

#[test]
fn test_update_parameters_bounds() {
    let mut oracle = new_test_ext();

    assert_eq!(
        oracle.update_parameters(Origin::Signed(1), 5, 3),
        Err(Error::UpdateIntervalTooLow)
    );
    assert_eq!(
        oracle.update_parameters(Origin::Signed(1), 200, 3),
        Err(Error::UpdateIntervalTooHigh)
    );
    assert_eq!(
        oracle.update_parameters(Origin::Signed(1), 20, 11),
        Err(Error::InvalidMinSources)
    );

    assert!(oracle.update_parameters(Origin::Signed(1), 20, 3).is_ok());
    assert_eq!(oracle.update_interval(), 20);
    assert_eq!(oracle.min_sources(), 3);
    assert_eq!(
        oracle.events.last(),
        Some(&Event::ParametersUpdated {
            update_interval: 20,
            min_sources: 3
        })
    );
}

#[test]
fn test_add_and_remove_source() {
    let mut oracle = new_test_ext();

    // Duplicates are rejected
    assert_eq!(
        oracle.add_source(Origin::Signed(1), b"KSH".to_vec()),
        Err(Error::SourceAlreadyExists)
    );

    // A new source is appended
    assert!(oracle.add_source(Origin::Signed(1), b"ECB".to_vec()).is_ok());
    assert_eq!(oracle.allowed_sources().len(), 4);
    assert_eq!(
        oracle.events.last(),
        Some(&Event::SourceAdded {
            source: b"ECB".to_vec()
        })
    );

    // An unknown removal is rejected
    assert_eq!(
        oracle.remove_source(Origin::Signed(1), b"UNKNOWN".to_vec()),
        Err(Error::SourceNotFound)
    );

    // Removal drops the source and its stored submission
    assert!(oracle
        .submit_source_value(Origin::Signed(1), b"ECB".to_vec(), 700, 0)
        .is_ok());
    assert!(oracle.remove_source(Origin::Signed(1), b"ECB".to_vec()).is_ok());
    assert_eq!(oracle.allowed_sources().len(), 3);
    assert_eq!(oracle.source_values(&b"ECB".to_vec()), 0);
}

#[test]
fn test_source_capacity() {
    let mut oracle = new_test_ext();

    // Fill the allow-list up to its capacity of 10
    for i in 0u8..7 {
        assert!(oracle.add_source(Origin::Signed(1), vec![b'S', i]).is_ok());
    }
    assert_eq!(oracle.allowed_sources().len(), 10);

    // The eleventh source is rejected
    assert_eq!(
        oracle.add_source(Origin::Signed(1), b"ONEMORE".to_vec()),
        Err(Error::TooManySources)
    );
}

#[test]
fn test_genesis_defaults() {
    let oracle = new_test_ext();

    assert_eq!(oracle.current_hoi(), 0);
    assert_eq!(oracle.last_update(), 0);
    assert_eq!(oracle.update_interval(), 10);
    assert_eq!(oracle.min_sources(), 2);
    assert_eq!(oracle.allowed_sources().len(), 3);
}

#[test]
fn test_initialize_defaults_keeps_set_values() {
    let mut oracle = new_test_ext();

    assert!(oracle.update_parameters(Origin::Signed(1), 20, 3).is_ok());
    oracle.initialize_defaults();
    assert_eq!(oracle.update_interval(), 20);
    assert_eq!(oracle.min_sources(), 3);
}

#[test]
fn test_mock_council_membership() {
    assert!(MockCouncilMembers::is_council_member(&1));
    assert!(MockCouncilMembers::is_council_member(&3));
    assert!(!MockCouncilMembers::is_council_member(&4));
}

#[test]
fn test_mock_origin_gate() {
    assert!(MockOrigin::try_origin(Origin::Signed(2)).is_ok());
    assert_eq!(MockOrigin::try_origin(Origin::Signed(4)), Err(Origin::Signed(4)));
    assert_eq!(MockOrigin::try_origin(Origin::Root), Err(Origin::Root));
    assert_eq!(MockOrigin::try_origin(Origin::Unsigned), Err(Origin::Unsigned));
}
