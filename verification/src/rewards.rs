//! The license & stake ledger and the reward-calculation engine.
//!
//! Tracks per-account licenses and staked collateral, and mints mining
//! rewards: the base reward is scaled by the oracle value (in
//! hundredths), boosted by an unexpired license tier and by a
//! sufficient stake, with every multiplicative step saturating, and the
//! cumulative issuance is capped by a hard maximum supply.

use std::collections::HashMap;
use vstd::prelude::*;

use crate::arith::{sat_mul, spec_sat128, spec_sat_add64};
use crate::authority::Origin;
use crate::ledger::Ledger;

verus! {

broadcast use vstd::std_specs::hash::group_hash_axioms;

/// Why a rewards action was rejected. On any error the state is
/// unchanged.
#[derive(Clone, Copy, Debug, PartialEq, Eq, Structural)]
pub enum Error {
    /// Minting the reward would push issuance past the maximum supply.
    SupplyCapReached,
    /// A balance could not hold the result.
    Overflow,
    /// The caller cannot pay the license price and fee.
    InsufficientBalance,
    /// The caller already holds an unexpired license.
    LicenseAlreadyActive,
    /// A stake below the configured minimum.
    InsufficientStake,
    /// Nothing is staked for the caller.
    NoStake,
    /// The origin does not carry the required authorization.
    BadOrigin,
}

/// The purchasable license tiers; each grants a fixed reward boost.
#[derive(Clone, Copy, Debug, PartialEq, Eq, Structural)]
pub enum LicenseType {
    /// 20% boost.
    Standard,
    /// 35% boost.
    Premium,
    /// 50% boost.
    Enterprise,
}

impl Default for LicenseType {
    /// The entry tier.
    fn default() -> (r: LicenseType)
        ensures
            r == LicenseType::Standard,
    {
        LicenseType::Standard
    }
}

/// One account's license record. It is read as active only while the
/// flag is set and the expiry block has not passed.
#[derive(Clone, Copy, Debug, PartialEq, Eq, Structural)]
pub struct License {
    pub active: bool,
    pub expiry: u64,
    pub license_type: LicenseType,
}

/// A notification emitted by a successful rewards action, for external
/// consumption.
#[derive(Clone, Copy, Debug, PartialEq, Eq, Structural)]
pub enum Event {
    RewardIssued { miner: u64, amount: u128 },
    LicenseUpdated { account: u64, license_type: LicenseType, expiry: u64 },
    TreasuryFeeCollected { amount: u128 },
    TokensStaked { account: u64, amount: u128 },
    TokensUnstaked { account: u64, amount: u128 },
}

/// Fixed configuration of the rewards engine, chosen by the environment
/// at genesis and never mutated afterwards.
#[derive(Clone, Copy, Debug, PartialEq, Eq, Structural)]
pub struct RewardsConfig {
    /// The base block reward, before any modifier.
    pub base_reward: u128,
    /// The hard cap on cumulative issuance.
    pub max_supply: u128,
    /// Price of a Standard license.
    pub standard_price: u128,
    /// Price of a Premium license.
    pub premium_price: u128,
    /// Price of an Enterprise license.
    pub enterprise_price: u128,
    /// How long a purchased license lasts, in blocks.
    pub license_duration: u64,
    /// Treasury fee on license purchases, as a percentage of the price.
    pub treasury_fee_percent: u32,
    /// Smallest stake that earns the staking bonus.
    pub minimum_stake: u128,
    /// The staking bonus, as a percentage.
    pub staking_bonus: u32,
    /// The account collecting treasury fees.
    pub treasury_account: u64,
}

impl RewardsConfig {
    pub open spec fn wf(&self) -> bool {
        &&& self.treasury_fee_percent <= 100
        &&& self.staking_bonus <= 100
        &&& self.minimum_stake >= 1
    }
}

impl LicenseType {
    /// The reward boost this tier grants, as a percentage.
    pub open spec fn spec_boost(&self) -> u32 {
        match self {
            LicenseType::Standard => 20,
            LicenseType::Premium => 35,
            LicenseType::Enterprise => 50,
        }
    }

    pub fn get_boost(&self) -> (r: u32)
        ensures
            r == self.spec_boost(),
    {
        match self {
            LicenseType::Standard => 20,
            LicenseType::Premium => 35,
            LicenseType::Enterprise => 50,
        }
    }

    /// The configured price of this tier.
    pub open spec fn spec_price(&self, c: RewardsConfig) -> u128 {
        match self {
            LicenseType::Standard => c.standard_price,
            LicenseType::Premium => c.premium_price,
            LicenseType::Enterprise => c.enterprise_price,
        }
    }

    pub fn get_price(&self, config: &RewardsConfig) -> (r: u128)
        ensures
            r == self.spec_price(*config),
    {
        match self {
            LicenseType::Standard => config.standard_price,
            LicenseType::Premium => config.premium_price,
            LicenseType::Enterprise => config.enterprise_price,
        }
    }
}

/// The whole rewards state: configuration, licenses, stakes, cumulative
/// issuance, and the account ledger it settles against.
pub struct RewardsState {
    pub config: RewardsConfig,
    /// One license record per account that ever held one.
    pub licenses: HashMap<u64, License>,
    /// Staked (reserved) collateral per account.
    pub staking_info: HashMap<u64, u128>,
    /// Cumulative amount ever minted as rewards; never above the cap.
    pub total_issuance: u128,
    /// The account ledger.
    pub ledger: Ledger,
    /// Notifications emitted by successful actions, oldest first.
    pub events: Vec<Event>,
}

impl RewardsState {
    /// The license record of `a`, if any.
    pub open spec fn spec_license(&self, a: u64) -> Option<License> {
        if self.licenses@.contains_key(a) {
            Some(self.licenses@[a])
        } else {
            None
        }
    }

    /// The staked amount of `a`, with 0 for no record.
    pub open spec fn spec_staked(&self, a: u64) -> u128 {
        if self.staking_info@.contains_key(a) {
            self.staking_info@[a]
        } else {
            0
        }
    }

    /// Whether `a` holds a license that is active at block `now`:
    /// expiry is checked at read time, never eagerly.
    pub open spec fn spec_license_active(&self, a: u64, now: u64) -> bool {
        &&& self.licenses@.contains_key(a)
        &&& self.licenses@[a].active
        &&& now <= self.licenses@[a].expiry
    }

    /// Structural invariant: configuration well-formed, cumulative
    /// issuance within the cap, the ledger well-formed, and every stake
    /// covered by the account's reserved funds.
    pub open spec fn wf(&self) -> bool {
        &&& self.config.wf()
        &&& self.total_issuance <= self.config.max_supply
        &&& self.ledger.wf()
        &&& forall|a: u64|
            #[trigger] self.staking_info@.contains_key(a) ==> self.staking_info@[a]
                <= self.ledger.spec_reserved(a)
    }

    /// A fresh rewards state over `ledger`: no licenses, no stakes,
    /// nothing issued.
    pub fn new(config: RewardsConfig, ledger: Ledger) -> (s: RewardsState)
        requires
            config.wf(),
            ledger.wf(),
        ensures
            s.wf(),
            s.config == config,
            s.ledger == ledger,
            s.total_issuance == 0,
            forall|a: u64| #[trigger] s.spec_license(a) is None,
            forall|a: u64| #[trigger] s.spec_staked(a) == 0,
            s.events@ == Seq::<Event>::empty(),
    {
        let s = RewardsState {
            config,
            licenses: HashMap::new(),
            staking_info: HashMap::new(),
            total_issuance: 0,
            ledger,
            events: Vec::new(),
        };
        proof {
            assert(s.events@ =~= Seq::<Event>::empty());
        }
        s
    }

    /// The treasury account fees are paid to.
    pub fn treasury_account_id(&self) -> (r: u64)
        ensures
            r == self.config.treasury_account,
    {
        self.config.treasury_account
    }

    /// The cumulative amount ever minted as rewards.
    pub fn total_issuance(&self) -> (r: u128)
        ensures
            r == self.total_issuance,
    {
        self.total_issuance
    }

    /// The license record of `account`, if any.
    pub fn licenses(&self, account: u64) -> (r: Option<License>)
        ensures
            r == self.spec_license(account),
    {
        match self.licenses.get(&account) {
            Some(l) => Some(*l),
            None => None,
        }
    }

    /// The staked amount of `account`, with 0 for no record.
    pub fn staking_info(&self, account: u64) -> (r: u128)
        ensures
            r == self.spec_staked(account),
    {
        match self.staking_info.get(&account) {
            Some(v) => *v,
            None => 0,
        }
    }

    /// The license boost of `miner` at block `now`, as a percentage:
    /// the tier's boost while the license is active, nothing otherwise.
    pub open spec fn spec_license_boost(&self, miner: u64, now: u64) -> u32 {
        if self.spec_license_active(miner, now) {
            self.licenses@[miner].license_type.spec_boost()
        } else {
            0
        }
    }

    /// The staking bonus of `miner`, as a percentage: the configured
    /// bonus while at least the minimum stake is held, nothing
    /// otherwise.
    pub open spec fn spec_staking_bonus(&self, miner: u64) -> u32 {
        if self.spec_staked(miner) >= self.config.minimum_stake {
            self.config.staking_bonus
        } else {
            0
        }
    }

    /// The reward `issue_reward` would mint for `miner`, given oracle
    /// value `hoi` at block `now`: the base reward scaled by
    /// `hoi`/100, by the license boost and by the staking bonus, each
    /// step with saturating multiplication and truncating division by
    /// 100.
    pub open spec fn spec_reward(&self, miner: u64, hoi: u32, now: u64) -> int {
        let after_inflation = spec_sat128(self.config.base_reward * hoi) / 100;
        let after_license = spec_sat128(
            after_inflation * (100 + self.spec_license_boost(miner, now)),
        ) / 100;
        spec_sat128(after_license * (100 + self.spec_staking_bonus(miner))) / 100
    }

    /// Computes `miner`'s reward; pure, mints nothing.
    pub fn calculate_reward(&self, miner: u64, hoi: u32, now: u64) -> (r: u128)
        requires
            self.config.wf(),
        ensures
            r == self.spec_reward(miner, hoi, now),
    {
        let after_inflation = sat_mul(self.config.base_reward, hoi as u128) / 100;
        let boost = match self.licenses.get(&miner) {
            Some(l) => {
                if l.active && now <= l.expiry {
                    l.license_type.get_boost()
                } else {
                    0
                }
            },
            None => 0,
        };
        let after_license = sat_mul(after_inflation, (100 + boost) as u128) / 100;
        let bonus = if self.staking_info(miner) >= self.config.minimum_stake {
            self.config.staking_bonus
        } else {
            0
        };
        sat_mul(after_license, (100 + bonus) as u128) / 100
    }

    /// The license record `set_license_status` writes.
    pub open spec fn spec_set_license(
        &self,
        account: u64,
        active: bool,
        now: u64,
    ) -> License {
        let prior = self.spec_license(account);
        License {
            active,
            expiry: if active {
                spec_sat_add64(now, self.config.license_duration)
            } else {
                match prior {
                    Some(l) => l.expiry,
                    None => 0,
                }
            },
            license_type: match prior {
                Some(l) => l.license_type,
                None => LicenseType::Standard,
            },
        }
    }

    /// Privileged: turns `account`'s license on (with a fresh expiry of
    /// one license duration from `now`, keeping any prior tier) or off.
    pub fn set_license_status(
        &mut self,
        origin: Origin,
        account: u64,
        active: bool,
        now: u64,
    ) -> (r: Result<(), Error>)
        requires
            old(self).wf(),
        ensures
            final(self).wf(),
            r is Ok <==> origin is Root,
            r is Ok ==> ({
                let written = old(self).spec_set_license(account, active, now);
                &&& final(self).spec_license(account) == Some(written)
                &&& forall|b: u64|
                    b != account ==> (#[trigger] final(self).spec_license(b)) == old(self).spec_license(b)
                &&& final(self).events@ == old(self).events@.push(
                    Event::LicenseUpdated {
                        account,
                        license_type: written.license_type,
                        expiry: written.expiry,
                    },
                )
                &&& final(self).staking_info == old(self).staking_info
                &&& final(self).total_issuance == old(self).total_issuance
                &&& final(self).ledger == old(self).ledger
                &&& final(self).config == old(self).config
            }),
            r is Err ==> *final(self) == *old(self) && r->Err_0 == Error::BadOrigin,
    {
        if !matches!(origin, Origin::Root) {
            return Err(Error::BadOrigin);
        }
        let prior = self.licenses(account);
        let written = License {
            active,
            expiry: if active {
                now.saturating_add(self.config.license_duration)
            } else {
                match prior {
                    Some(l) => l.expiry,
                    None => 0,
                }
            },
            license_type: match prior {
                Some(l) => l.license_type,
                None => LicenseType::Standard,
            },
        };
        self.licenses.insert(account, written);
        self.events.push(
            Event::LicenseUpdated {
                account,
                license_type: written.license_type,
                expiry: written.expiry,
            },
        );
        Ok(())
    }

    /// The treasury fee on `price`: the configured percentage, with a
    /// saturating product and truncating division.
    pub open spec fn spec_fee(&self, price: u128) -> int {
        spec_sat128(price * self.config.treasury_fee_percent) / 100
    }

    /// Whether `who` can pay `price` plus its fee.
    pub open spec fn spec_can_pay(&self, who: u64, price: u128) -> bool {
        self.ledger.spec_free(who) >= price + self.spec_fee(price)
    }

    /// Whether the treasury can receive the fee on `price` from `who`.
    pub open spec fn spec_treasury_can_receive(&self, who: u64, price: u128) -> bool {
        ||| who == self.config.treasury_account
        ||| self.ledger.spec_free(self.config.treasury_account) + self.ledger.spec_reserved(
            self.config.treasury_account,
        ) + self.spec_fee(price) <= u128::MAX
    }

    /// The error `purchase_license` reports, by precedence.
    pub open spec fn spec_purchase_err(
        &self,
        origin: Origin,
        license_type: LicenseType,
        now: u64,
    ) -> Error {
        match origin {
            Origin::Signed(who) => {
                if self.spec_license_active(who, now) {
                    Error::LicenseAlreadyActive
                } else if !self.spec_can_pay(who, license_type.spec_price(self.config)) {
                    Error::InsufficientBalance
                } else {
                    Error::Overflow
                }
            },
            _ => Error::BadOrigin,
        }
    }

    /// Buys a license: the caller pays the tier's price plus the
    /// treasury fee, all or nothing — the price is withdrawn, the fee
    /// goes to the treasury — and receives an active license for one
    /// license duration from `now`. A holder of a still-active license
    /// is turned away.
    pub fn purchase_license(
        &mut self,
        origin: Origin,
        license_type: LicenseType,
        now: u64,
    ) -> (r: Result<(), Error>)
        requires
            old(self).wf(),
        ensures
            final(self).wf(),
            r is Ok <==> ({
                &&& origin matches Origin::Signed(who)
                &&& !old(self).spec_license_active(who, now)
                &&& old(self).spec_can_pay(who, license_type.spec_price(old(self).config))
                &&& old(self).spec_treasury_can_receive(
                    who,
                    license_type.spec_price(old(self).config),
                )
            }),
            r is Ok ==> ({
                let who = origin->Signed_0;
                let price = license_type.spec_price(old(self).config);
                let fee = old(self).spec_fee(price);
                let treasury = old(self).config.treasury_account;
                &&& final(self).spec_license(who) == Some(
                    License {
                        active: true,
                        expiry: spec_sat_add64(now, old(self).config.license_duration),
                        license_type,
                    },
                )
                &&& forall|b: u64|
                    b != who ==> (#[trigger] final(self).spec_license(b)) == old(self).spec_license(
                        b,
                    )
                &&& final(self).ledger.spec_free(who) == old(self).ledger.spec_free(who) - price
                    - fee + (if who == treasury {
                    fee
                } else {
                    0
                })
                &&& who != treasury ==> final(self).ledger.spec_free(treasury) == old(self).ledger.spec_free(treasury) + fee
                &&& forall|b: u64|
                    b != who && b != treasury ==> (#[trigger] final(self).ledger.spec_free(b))
                        == old(self).ledger.spec_free(b)
                &&& forall|b: u64|
                    (#[trigger] final(self).ledger.spec_reserved(b)) == old(self).ledger.spec_reserved(b)
                &&& final(self).events@ == old(self).events@.push(
                    Event::LicenseUpdated {
                        account: who,
                        license_type,
                        expiry: spec_sat_add64(now, old(self).config.license_duration),
                    },
                ).push(Event::TreasuryFeeCollected { amount: fee as u128 })
                &&& final(self).staking_info == old(self).staking_info
                &&& final(self).total_issuance == old(self).total_issuance
                &&& final(self).config == old(self).config
            }),
            r is Err ==> *final(self) == *old(self) && r->Err_0 == old(self).spec_purchase_err(
                origin,
                license_type,
                now,
            ),
    {
        let who = match origin {
            Origin::Signed(who) => who,
            _ => {
                return Err(Error::BadOrigin);
            },
        };
        match self.licenses.get(&who) {
            Some(l) => {
                if l.active && now <= l.expiry {
                    return Err(Error::LicenseAlreadyActive);
                }
            },
            None => {},
        }
        let price = license_type.get_price(&self.config);
        let fee = sat_mul(price, self.config.treasury_fee_percent as u128) / 100;
        let free = self.ledger.free_balance(who);
        if fee > free || price > free - fee {
            return Err(Error::InsufficientBalance);
        }
        let treasury = self.config.treasury_account;
        if who != treasury {
            let t_free = self.ledger.free_balance(treasury);
            let t_reserved = self.ledger.reserved_balance(treasury);
            proof {
                assert(t_free + t_reserved <= u128::MAX);
            }
            if fee > (u128::MAX - t_free) - t_reserved {
                return Err(Error::Overflow);
            }
        }
        let withdrawn = self.ledger.withdraw(who, price);
        proof {
            assert(withdrawn is Ok);
        }
        let fee_paid = self.ledger.transfer(who, treasury, fee);
        proof {
            assert(fee_paid is Ok);
        }
        let expiry = now.saturating_add(self.config.license_duration);
        self.licenses.insert(who, License { active: true, expiry, license_type });
        self.events.push(Event::LicenseUpdated { account: who, license_type, expiry });
        self.events.push(Event::TreasuryFeeCollected { amount: fee });
        proof {
            assert forall|a: u64|
                #[trigger] self.staking_info@.contains_key(a)
                    implies self.staking_info@[a] <= self.ledger.spec_reserved(a) by {
                assert(old(self).staking_info@.contains_key(a));
                assert(old(self).staking_info@[a] <= old(self).ledger.spec_reserved(a));
            }
        }
        Ok(())
    }

    /// The error `issue_reward` reports, by precedence.
    pub open spec fn spec_issue_err(&self, origin: Origin, miner: u64, hoi: u32, now: u64) -> Error {
        if !(origin matches Origin::Signed(_)) {
            Error::BadOrigin
        } else if self.total_issuance + self.spec_reward(miner, hoi, now) > self.config.max_supply {
            Error::SupplyCapReached
        } else {
            Error::Overflow
        }
    }

    /// Mints `miner`'s reward for oracle value `hoi` at block `now`:
    /// any signed caller may trigger issuance. The reward is computed
    /// by [`Self::calculate_reward`]; nothing is minted when the
    /// cumulative issuance would pass the maximum supply.
    pub fn issue_reward(&mut self, origin: Origin, miner: u64, hoi: u32, now: u64) -> (r: Result<
        (),
        Error,
    >)
        requires
            old(self).wf(),
        ensures
            final(self).wf(),
            final(self).total_issuance <= final(self).config.max_supply,
            r is Ok <==> ({
                &&& origin matches Origin::Signed(_)
                &&& old(self).total_issuance + old(self).spec_reward(miner, hoi, now) <= old(self).config.max_supply
                &&& old(self).ledger.spec_free(miner) + old(self).ledger.spec_reserved(miner)
                    + old(self).spec_reward(miner, hoi, now) <= u128::MAX
            }),
            r is Ok ==> ({
                let reward = old(self).spec_reward(miner, hoi, now);
                &&& final(self).total_issuance == old(self).total_issuance + reward
                &&& final(self).ledger.spec_free(miner) == old(self).ledger.spec_free(miner)
                    + reward
                &&& forall|b: u64|
                    b != miner ==> (#[trigger] final(self).ledger.spec_free(b)) == old(self).ledger.spec_free(b)
                &&& forall|b: u64|
                    (#[trigger] final(self).ledger.spec_reserved(b)) == old(self).ledger.spec_reserved(b)
                &&& final(self).events@ == old(self).events@.push(
                    Event::RewardIssued { miner, amount: reward as u128 },
                )
                &&& final(self).licenses == old(self).licenses
                &&& final(self).staking_info == old(self).staking_info
                &&& final(self).config == old(self).config
            }),
            r is Err ==> *final(self) == *old(self) && r->Err_0 == old(self).spec_issue_err(
                origin,
                miner,
                hoi,
                now,
            ),
    {
        match origin {
            Origin::Signed(_) => {},
            _ => {
                return Err(Error::BadOrigin);
            },
        }
        let reward = self.calculate_reward(miner, hoi, now);
        if reward > self.config.max_supply - self.total_issuance {
            return Err(Error::SupplyCapReached);
        }
        let m_free = self.ledger.free_balance(miner);
        let m_reserved = self.ledger.reserved_balance(miner);
        proof {
            assert(m_free + m_reserved <= u128::MAX);
        }
        if reward > (u128::MAX - m_free) - m_reserved {
            return Err(Error::Overflow);
        }
        let minted = self.ledger.mint(miner, reward);
        proof {
            assert(minted is Ok);
        }
        self.total_issuance = self.total_issuance + reward;
        self.events.push(Event::RewardIssued { miner, amount: reward });
        proof {
            assert forall|a: u64|
                #[trigger] self.staking_info@.contains_key(a)
                    implies self.staking_info@[a] <= self.ledger.spec_reserved(a) by {
                assert(old(self).staking_info@.contains_key(a));
                assert(old(self).staking_info@[a] <= old(self).ledger.spec_reserved(a));
            }
        }
        Ok(())
    }

    /// The error `stake_tokens` reports, by precedence.
    pub open spec fn spec_stake_err(&self, origin: Origin, amount: u128) -> Error {
        match origin {
            Origin::Signed(_) => {
                if amount < self.config.minimum_stake {
                    Error::InsufficientStake
                } else {
                    Error::InsufficientBalance
                }
            },
            _ => Error::BadOrigin,
        }
    }

    /// Reserves `amount` of the caller's spendable funds as staked
    /// collateral, on top of any existing stake. Amounts below the
    /// configured minimum are turned away.
    pub fn stake_tokens(&mut self, origin: Origin, amount: u128) -> (r: Result<(), Error>)
        requires
            old(self).wf(),
        ensures
            final(self).wf(),
            r is Ok <==> (origin matches Origin::Signed(who) && amount >= old(self).config.minimum_stake && old(self).ledger.spec_free(who) >= amount),
            r is Ok ==> ({
                let who = origin->Signed_0;
                &&& final(self).spec_staked(who) == old(self).spec_staked(who) + amount
                &&& forall|b: u64|
                    b != who ==> (#[trigger] final(self).spec_staked(b)) == old(self).spec_staked(b)
                &&& final(self).ledger.spec_free(who) == old(self).ledger.spec_free(who) - amount
                &&& final(self).ledger.spec_reserved(who) == old(self).ledger.spec_reserved(who)
                    + amount
                &&& forall|b: u64|
                    #![trigger final(self).ledger.spec_free(b)]
                    #![trigger final(self).ledger.spec_reserved(b)]
                    b != who ==> final(self).ledger.spec_free(b) == old(self).ledger.spec_free(b)
                        && final(self).ledger.spec_reserved(b) == old(self).ledger.spec_reserved(
                        b,
                    )
                &&& final(self).events@ == old(self).events@.push(
                    Event::TokensStaked { account: who, amount },
                )
                &&& final(self).licenses == old(self).licenses
                &&& final(self).total_issuance == old(self).total_issuance
                &&& final(self).config == old(self).config
            }),
            r is Err ==> *final(self) == *old(self) && r->Err_0 == old(self).spec_stake_err(
                origin,
                amount,
            ),
    {
        let who = match origin {
            Origin::Signed(who) => who,
            _ => {
                return Err(Error::BadOrigin);
            },
        };
        if amount < self.config.minimum_stake {
            return Err(Error::InsufficientStake);
        }
        let staked = self.staking_info(who);
        let reserved = self.ledger.reserve(who, amount);
        if reserved.is_err() {
            return Err(Error::InsufficientBalance);
        }
        proof {
            assert(staked <= old(self).ledger.spec_reserved(who));
            assert(self.ledger.spec_reserved(who) == old(self).ledger.spec_reserved(who) + amount);
        }
        self.staking_info.insert(who, staked + amount);
        self.events.push(Event::TokensStaked { account: who, amount });
        proof {
            assert forall|a: u64|
                #[trigger] self.staking_info@.contains_key(a)
                    implies self.staking_info@[a] <= self.ledger.spec_reserved(a) by {
                if a != who {
                    assert(old(self).staking_info@.contains_key(a));
                    assert(old(self).staking_info@[a] <= old(self).ledger.spec_reserved(a));
                    assert(self.ledger.spec_reserved(a) == old(self).ledger.spec_reserved(a));
                }
            }
        }
        Ok(())
    }

    /// The error `unstake_tokens` reports, by precedence.
    pub open spec fn spec_unstake_err(&self, origin: Origin) -> Error {
        match origin {
            Origin::Signed(_) => Error::NoStake,
            _ => Error::BadOrigin,
        }
    }

    /// Releases the caller's whole stake back to spendable funds and
    /// removes the record; there is no partial unstake. With nothing
    /// staked the call is turned away.
    pub fn unstake_tokens(&mut self, origin: Origin) -> (r: Result<(), Error>)
        requires
            old(self).wf(),
        ensures
            final(self).wf(),
            r is Ok <==> (origin matches Origin::Signed(who) && old(self).spec_staked(who) > 0),
            r is Ok ==> ({
                let who = origin->Signed_0;
                let staked = old(self).spec_staked(who);
                &&& final(self).spec_staked(who) == 0
                &&& !final(self).staking_info@.contains_key(who)
                &&& forall|b: u64|
                    b != who ==> (#[trigger] final(self).spec_staked(b)) == old(self).spec_staked(b)
                &&& final(self).ledger.spec_free(who) == old(self).ledger.spec_free(who) + staked
                &&& final(self).ledger.spec_reserved(who) == old(self).ledger.spec_reserved(who)
                    - staked
                &&& forall|b: u64|
                    #![trigger final(self).ledger.spec_free(b)]
                    #![trigger final(self).ledger.spec_reserved(b)]
                    b != who ==> final(self).ledger.spec_free(b) == old(self).ledger.spec_free(b)
                        && final(self).ledger.spec_reserved(b) == old(self).ledger.spec_reserved(
                        b,
                    )
                &&& final(self).events@ == old(self).events@.push(
                    Event::TokensUnstaked { account: who, amount: staked },
                )
                &&& final(self).licenses == old(self).licenses
                &&& final(self).total_issuance == old(self).total_issuance
                &&& final(self).config == old(self).config
            }),
            r is Err ==> *final(self) == *old(self) && r->Err_0 == old(self).spec_unstake_err(
                origin,
            ),
    {
        let who = match origin {
            Origin::Signed(who) => who,
            _ => {
                return Err(Error::BadOrigin);
            },
        };
        let staked = self.staking_info(who);
        if staked == 0 {
            return Err(Error::NoStake);
        }
        proof {
            assert(staked <= old(self).ledger.spec_reserved(who));
        }
        self.ledger.unreserve(who, staked);
        self.staking_info.remove(&who);
        self.events.push(Event::TokensUnstaked { account: who, amount: staked });
        proof {
            assert forall|a: u64|
                #[trigger] self.staking_info@.contains_key(a)
                    implies self.staking_info@[a] <= self.ledger.spec_reserved(a) by {
                assert(old(self).staking_info@.contains_key(a));
            }
        }
        Ok(())
    }

    /// Privileged: sets the cumulative issuance counter directly, still
    /// bounded by the maximum supply.
    pub fn set_total_issuance(&mut self, origin: Origin, value: u128) -> (r: Result<(), Error>)
        requires
            old(self).wf(),
        ensures
            final(self).wf(),
            r is Ok <==> origin is Root && value <= old(self).config.max_supply,
            r is Ok ==> final(self).total_issuance == value && final(self).licenses == old(self).licenses && final(self).staking_info == old(self).staking_info && final(self).ledger
                == old(self).ledger && final(self).events == old(self).events && final(self).config
                == old(self).config,
            r is Err ==> *final(self) == *old(self) && r->Err_0 == (if !(origin is Root) {
                Error::BadOrigin
            } else {
                Error::SupplyCapReached
            }),
    {
        if !matches!(origin, Origin::Root) {
            return Err(Error::BadOrigin);
        }
        if value > self.config.max_supply {
            return Err(Error::SupplyCapReached);
        }
        self.total_issuance = value;
        Ok(())
    }
}

} // verus!
