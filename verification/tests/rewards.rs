use halom_core::authority::Origin;
use halom_core::ledger::Ledger;
use halom_core::oracle::{GenesisConfig, OracleConfig, OracleState};
use halom_core::rewards::{Error, Event, LicenseType, RewardsConfig, RewardsState};

fn test_rewards_config() -> RewardsConfig {
    RewardsConfig {
        base_reward: 1_000,
        max_supply: 21_000_000,
        standard_price: 1_000,
        premium_price: 5_000,
        enterprise_price: 20_000,
        license_duration: 100,
        treasury_fee_percent: 10,
        minimum_stake: 1_000,
        staking_bonus: 10,
        treasury_account: 99,
    }
}

fn state_with_balances(balances: &[(u64, u128)]) -> RewardsState {
    let mut ledger = Ledger::new();
    for (account, amount) in balances {
        ledger.endow(*account, *amount);
    }
    RewardsState::new(test_rewards_config(), ledger)
}

pub fn new_test_ext() -> RewardsState {
    state_with_balances(&[(1, 10_000_000), (2, 10_000_000), (3, 10_000_000)])
}

fn oracle_with_hoi(value: u32) -> OracleState {
    let config = OracleConfig {
        min_update_interval: 10,
        max_update_interval: 100,
        min_sources_for_consensus: 2,
        voting_period: 50,
        required_majority: 66,
        council: vec![1, 2, 3],
    };
    let mut oracle = GenesisConfig {
        initial_sources: vec![b"KSH".to_vec(), b"MNB".to_vec()],
    }
    .build(config);
    assert!(oracle.submit_hoi(Origin::Signed(1), value, 1).is_ok());
    oracle
}

#[test]
fn test_set_license_status() {
    let mut rewards = new_test_ext();

    // Only the privileged origin can set a license
    assert_eq!(
        rewards.set_license_status(Origin::Signed(1), 1, true, 1),
        Err(Error::BadOrigin)
    );

    // The privileged origin can
    assert!(rewards.set_license_status(Origin::Root, 1, true, 1).is_ok());

    // The notification was emitted
    assert_eq!(
        rewards.events.last(),
        Some(&Event::LicenseUpdated {
            account: 1,
            license_type: LicenseType::Standard,
            expiry: 101
        })
    );

    // The record was written
    assert!(rewards.licenses(1).unwrap().active);
}

#[test]
fn test_issue_reward_basic() {
    let mut rewards = state_with_balances(&[(1, 10_000)]);

    // HOI at 105 (5% inflation)
    let oracle = oracle_with_hoi(105);

    // Issue a reward without a license
    assert!(rewards
        .issue_reward(Origin::Signed(1), 1, oracle.current_hoi(), 1)
        .is_ok());

    // The balance grew by base reward times inflation
    let expected_reward: u128 = 1_000 * 105 / 100;
    assert_eq!(rewards.ledger.free_balance(1), 10_000 + expected_reward);
}

#[test]
fn test_issue_reward_with_license() {
    let mut rewards = state_with_balances(&[(1, 10_000)]);

    // HOI at 105 (5% inflation)
    let oracle = oracle_with_hoi(105);

    // Activate a license
    assert!(rewards.set_license_status(Origin::Root, 1, true, 1).is_ok());

    // Issue a reward with the license
    assert!(rewards
        .issue_reward(Origin::Signed(1), 1, oracle.current_hoi(), 1)
        .is_ok());

    // The balance grew by (base reward times inflation) times (1 + boost)
    let base_with_inflation: u128 = 1_000 * 105 / 100;
    let expected_reward: u128 = base_with_inflation + base_with_inflation / 5;
    assert_eq!(rewards.ledger.free_balance(1), 10_000 + expected_reward);
}

#[test]
fn test_supply_cap() {
    let mut rewards = new_test_ext();

    // Total issuance close to the maximum supply
    let near_max: u128 = 21_000_000 - 1_000;
    assert!(rewards
        .set_total_issuance(Origin::Root, near_max)
        .is_ok());

    // HOI at 105 makes the reward 1050, which would pass the cap
    let oracle = oracle_with_hoi(105);
    assert_eq!(
        rewards.issue_reward(Origin::Signed(1), 1, oracle.current_hoi(), 1),
        Err(Error::SupplyCapReached)
    );
    assert_eq!(rewards.total_issuance(), near_max);
}

#[test]
fn test_reward_calculation() {
    let test_cases: Vec<(u32, u128)> = vec![
        (100, 1_000),
        (105, 1_000 * 105 / 100),
        (110, 1_000 * 110 / 100),
    ];

    for (hoi, expected_base) in test_cases {
        let mut rewards = state_with_balances(&[(2, 20_000)]);

        // Without a license
        assert!(rewards.issue_reward(Origin::Signed(2), 2, hoi, 1).is_ok());
        assert_eq!(rewards.ledger.free_balance(2), 20_000 + expected_base);

        // With a license: a 20% boost on top
        assert!(rewards.set_license_status(Origin::Root, 2, true, 1).is_ok());
        assert!(rewards.issue_reward(Origin::Signed(2), 2, hoi, 1).is_ok());

        let boosted_reward: u128 = expected_base + expected_base / 5;
        assert_eq!(
            rewards.ledger.free_balance(2),
            20_000 + expected_base + boosted_reward
        );
    }
}

#[test]
fn test_issue_reward_works() {
    // Chosen so that the balance lands on a round number
    let mut rewards = state_with_balances(&[(1, 10_000_000), (2, 10_999_000)]);

    // HOI at 100 (neutral)
    let oracle = oracle_with_hoi(100);

    assert!(rewards
        .issue_reward(Origin::Signed(1), 2, oracle.current_hoi(), 1)
        .is_ok());

    // The reward was minted
    assert_eq!(rewards.ledger.free_balance(2), 11_000_000);

    // The notification was emitted
    assert_eq!(
        rewards.events.last(),
        Some(&Event::RewardIssued {
            miner: 2,
            amount: 1_000
        })
    );
}

#[test]
fn test_issue_reward_with_standard_license() {
    let mut rewards = new_test_ext();
    let oracle = oracle_with_hoi(100);

    assert!(rewards
        .purchase_license(Origin::Signed(2), LicenseType::Standard, 0)
        .is_ok());
    assert!(rewards
        .issue_reward(Origin::Signed(1), 2, oracle.current_hoi(), 0)
        .is_ok());

    // Base reward 1000, Standard boost 20%: 1200, after price and fee
    assert_eq!(
        rewards.ledger.free_balance(2),
        10_000_000 - 1_000 - 100 + 1_200
    );
}

#[test]
fn test_issue_reward_with_premium_license() {
    let mut rewards = new_test_ext();
    let oracle = oracle_with_hoi(100);

    assert!(rewards
        .purchase_license(Origin::Signed(2), LicenseType::Premium, 0)
        .is_ok());
    assert!(rewards
        .issue_reward(Origin::Signed(1), 2, oracle.current_hoi(), 0)
        .is_ok());

    // Base reward 1000, Premium boost 35%: 1350, after price and fee
    assert_eq!(
        rewards.ledger.free_balance(2),
        10_000_000 - 5_000 - 500 + 1_350
    );
}

#[test]
fn test_issue_reward_with_enterprise_license() {
    let mut rewards = new_test_ext();
    let oracle = oracle_with_hoi(100);

    assert!(rewards
        .purchase_license(Origin::Signed(2), LicenseType::Enterprise, 0)
        .is_ok());
    assert!(rewards
        .issue_reward(Origin::Signed(1), 2, oracle.current_hoi(), 0)
        .is_ok());

    // Base reward 1000, Enterprise boost 50%: 1500, after price and fee
    assert_eq!(
        rewards.ledger.free_balance(2),
        10_000_000 - 20_000 - 2_000 + 1_500
    );
}

#[test]
fn test_license_expiry() {
    let mut rewards = new_test_ext();
    let oracle = oracle_with_hoi(100);

    // Purchased at block 0 with a duration of 100: expires after block 100
    assert!(rewards
        .purchase_license(Origin::Signed(2), LicenseType::Standard, 0)
        .is_ok());

    // Just before expiry the reward is still boosted
    assert!(rewards
        .issue_reward(Origin::Signed(1), 2, oracle.current_hoi(), 99)
        .is_ok());
    assert_eq!(
        rewards.ledger.free_balance(2),
        10_000_000 - 1_000 - 100 + 1_200
    );

    // Past expiry the reward is back to normal
    assert!(rewards
        .issue_reward(Origin::Signed(1), 2, oracle.current_hoi(), 101)
        .is_ok());
    assert_eq!(
        rewards.ledger.free_balance(2),
        10_000_000 - 1_000 - 100 + 1_200 + 1_000
    );
}

#[test]
fn test_license_already_active() {
    let mut rewards = new_test_ext();

    assert!(rewards
        .purchase_license(Origin::Signed(2), LicenseType::Standard, 0)
        .is_ok());

    // A second purchase while the license is active is rejected
    assert_eq!(
        rewards.purchase_license(Origin::Signed(2), LicenseType::Premium, 0),
        Err(Error::LicenseAlreadyActive)
    );
}

#[test]
fn test_treasury_fees() {
    let mut rewards = new_test_ext();

    let treasury_account: u64 = rewards.treasury_account_id();
    let initial_treasury_balance: u128 = rewards.ledger.free_balance(treasury_account);

    assert!(rewards
        .purchase_license(Origin::Signed(2), LicenseType::Standard, 0)
        .is_ok());

    // The treasury received the 10% fee
    assert_eq!(
        rewards.ledger.free_balance(treasury_account),
        initial_treasury_balance + 100
    );

    // The notification was emitted
    assert!(rewards
        .events
        .contains(&Event::TreasuryFeeCollected { amount: 100 }));
}

#[test]
fn test_purchase_license_insufficient_balance() {
    let mut rewards = state_with_balances(&[(7, 10)]);

    assert_eq!(
        rewards.purchase_license(Origin::Signed(7), LicenseType::Standard, 0),
        Err(Error::InsufficientBalance)
    );
    assert_eq!(rewards.ledger.free_balance(7), 10);
}

#[test]
fn test_stake_and_bonus() {
    let mut rewards = new_test_ext();
    let oracle = oracle_with_hoi(100);

    // A stake below the minimum is rejected
    assert_eq!(
        rewards.stake_tokens(Origin::Signed(2), 999),
        Err(Error::InsufficientStake)
    );

    // A stake beyond the spendable balance is rejected
    assert_eq!(
        rewards.stake_tokens(Origin::Signed(2), 20_000_000),
        Err(Error::InsufficientBalance)
    );

    // A sufficient stake is reserved
    assert!(rewards.stake_tokens(Origin::Signed(2), 5_000).is_ok());
    assert_eq!(rewards.staking_info(2), 5_000);
    assert_eq!(rewards.ledger.reserved_balance(2), 5_000);
    assert_eq!(rewards.ledger.free_balance(2), 10_000_000 - 5_000);

    // The staking bonus of 10% now applies
    assert!(rewards
        .issue_reward(Origin::Signed(1), 2, oracle.current_hoi(), 1)
        .is_ok());
    assert_eq!(
        rewards.ledger.free_balance(2),
        10_000_000 - 5_000 + 1_100
    );
}

#[test]
fn test_unstake_releases_exact_amount() {
    let mut rewards = new_test_ext();

    assert!(rewards.stake_tokens(Origin::Signed(2), 5_000).is_ok());

    // Unstaking releases exactly the staked amount
    assert!(rewards.unstake_tokens(Origin::Signed(2)).is_ok());
    assert_eq!(rewards.ledger.free_balance(2), 10_000_000);
    assert_eq!(rewards.ledger.reserved_balance(2), 0);
    assert_eq!(rewards.staking_info(2), 0);
    assert_eq!(
        rewards.events.last(),
        Some(&Event::TokensUnstaked {
            account: 2,
            amount: 5_000
        })
    );

    // A second unstake in a row is rejected
    assert_eq!(
        rewards.unstake_tokens(Origin::Signed(2)),
        Err(Error::NoStake)
    );
}

#[test]
fn test_stake_accumulates() {
    let mut rewards = new_test_ext();

    assert!(rewards.stake_tokens(Origin::Signed(2), 2_000).is_ok());
    assert!(rewards.stake_tokens(Origin::Signed(2), 3_000).is_ok());
    assert_eq!(rewards.staking_info(2), 5_000);
    assert_eq!(rewards.ledger.reserved_balance(2), 5_000);

    assert!(rewards.unstake_tokens(Origin::Signed(2)).is_ok());
    assert_eq!(rewards.ledger.free_balance(2), 10_000_000);
}

#[test]
fn test_license_boost_determinism() {
    // Neutral oracle value, Standard license, stake below the minimum:
    // the reward is exactly base times 1.20
    let mut rewards = state_with_balances(&[(1, 50_000), (2, 50_000)]);

    assert!(rewards.set_license_status(Origin::Root, 2, true, 0).is_ok());
    assert_eq!(rewards.staking_info(2), 0);
    assert_eq!(rewards.calculate_reward(2, 100, 0), 1_000 * 120 / 100);

    assert!(rewards.issue_reward(Origin::Signed(1), 2, 100, 0).is_ok());
    assert_eq!(rewards.ledger.free_balance(2), 50_000 + 1_200);
}

#[test]
fn test_issue_reward_bad_origin() {
    let mut rewards = new_test_ext();

    assert_eq!(
        rewards.issue_reward(Origin::Unsigned, 1, 100, 1),
        Err(Error::BadOrigin)
    );
    assert_eq!(
        rewards.issue_reward(Origin::Root, 1, 100, 1),
        Err(Error::BadOrigin)
    );
}

#[test]
fn test_issue_reward_balance_overflow() {
    let mut rewards = state_with_balances(&[(1, 1_000), (5, u128::MAX)]);

    // The miner's balance cannot hold the reward
    assert_eq!(
        rewards.issue_reward(Origin::Signed(1), 5, 100, 1),
        Err(Error::Overflow)
    );
}

#[test]
fn test_set_total_issuance_bounds() {
    let mut rewards = new_test_ext();

    assert_eq!(
        rewards.set_total_issuance(Origin::Signed(1), 5),
        Err(Error::BadOrigin)
    );
    assert_eq!(
        rewards.set_total_issuance(Origin::Root, 21_000_001),
        Err(Error::SupplyCapReached)
    );
    assert!(rewards.set_total_issuance(Origin::Root, 21_000_000).is_ok());
    assert_eq!(rewards.total_issuance(), 21_000_000);
}
