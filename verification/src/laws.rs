//! The library's global laws, stated and proved over the same spec
//! functions the operations' contracts use.
//!
//! Reachability arguments rest on the structural invariants: every
//! constructor establishes `wf` and every operation's contract preserves
//! it, so a law over well-formed states holds of every reachable state.

use vstd::prelude::*;

use crate::authority::Origin;
use crate::governance::{
    spec_has_voted, spec_resolved_proposal, spec_voted_proposal, ProposalStatus, ProposalView,
};
use crate::oracle::{Error, OracleState};
use crate::rewards::{LicenseType, RewardsState};

verus! {

/// Supply invariant: every well-formed rewards state keeps the
/// cumulative issuance within the maximum supply. Constructors establish
/// well-formedness and every operation's contract preserves it (and
/// `issue_reward` refuses to mint past the cap), so no sequence of calls
/// can violate the bound.
pub proof fn lemma_supply_invariant(s: RewardsState)
    requires
        s.wf(),
    ensures
        s.total_issuance <= s.config.max_supply,
{
}

/// Oracle gating: once a direct submission was accepted at some block
/// `b > 0` (so `last_update == b`), a second submission at any block
/// `b2 < b + I`, with `I` the update interval, is rejected with
/// `TooEarlyToUpdate`, whatever value it carries. The deadline `b + I`
/// must itself fit the block-number type: at the saturation boundary
/// updates are accepted again from the largest block number on.
pub proof fn lemma_oracle_gating(s: OracleState, origin: Origin, value: u32, b2: u64)
    requires
        s.last_update > 0,
        s.spec_oracle_origin_ok(origin),
        value > 0,
        (b2 as int) < s.last_update + s.update_interval,
        s.last_update + s.update_interval <= u64::MAX,
    ensures
        !s.update_gate_open(b2),
        s.spec_submit_hoi_err(origin, value, b2) == Error::TooEarlyToUpdate,
{
}

/// A recorded vote is visible: after `who`'s vote is recorded (and
/// whether or not the proposal resolves on it), `who` stands in one of
/// the proposal's vote sets.
pub proof fn lemma_vote_recorded(
    c: crate::oracle::OracleConfig,
    p: ProposalView,
    who: u64,
    approve: bool,
)
    ensures
        spec_has_voted(spec_resolved_proposal(c, spec_voted_proposal(p, who, approve)), who),
{
    if approve {
        assert(p.votes_for.push(who)[p.votes_for.len() as int] == who);
        assert(p.votes_for.push(who).contains(who));
    } else {
        assert(p.votes_against.push(who)[p.votes_against.len() as int] == who);
        assert(p.votes_against.push(who).contains(who));
    }
}

/// Voting exclusivity: a council member who already stands in either
/// vote set of a proposal cannot vote on it again — the attempt is
/// rejected with `AlreadyVoted`, whichever direction it would take.
/// Together with [`lemma_vote_recorded`], a second vote right after a
/// successful one always fails this way.
pub proof fn lemma_voting_exclusivity(s: OracleState, who: u64, proposal_id: u64, now: u64)
    requires
        s.config.spec_is_council_member(who),
        proposal_id < s.proposals_view().len(),
        spec_has_voted(s.proposals_view()[proposal_id as int], who),
    ensures
        s.spec_vote_err(Origin::Signed(who), proposal_id, now) == Error::AlreadyVoted,
{
}

/// Expiry: a vote on a proposal whose deadline has passed is rejected
/// with `ProposalExpired`, whichever direction the vote would take.
/// (A member who already voted is turned away as `AlreadyVoted` before
/// the deadline is even consulted.)
pub proof fn lemma_vote_expired(s: OracleState, who: u64, proposal_id: u64, now: u64)
    requires
        s.config.spec_is_council_member(who),
        proposal_id < s.proposals_view().len(),
        !spec_has_voted(s.proposals_view()[proposal_id as int], who),
        now > s.proposals_view()[proposal_id as int].end_block,
    ensures
        s.spec_vote_err(Origin::Signed(who), proposal_id, now) == Error::ProposalExpired,
{
}

/// Terminal proposals are immutable: once a proposal has left the
/// `Active` state, a vote on it is rejected (as `ProposalExpired`, or as
/// `AlreadyVoted` for a member who already voted), so its recorded
/// outcome never changes.
pub proof fn lemma_terminal_proposal_immutable(
    s: OracleState,
    who: u64,
    proposal_id: u64,
    now: u64,
)
    requires
        s.config.spec_is_council_member(who),
        proposal_id < s.proposals_view().len(),
        !spec_has_voted(s.proposals_view()[proposal_id as int], who),
        s.proposals_view()[proposal_id as int].status != ProposalStatus::Active,
    ensures
        s.spec_vote_err(Origin::Signed(who), proposal_id, now) == Error::ProposalExpired,
{
}

/// License boost determinism: with the neutral oracle value 100, an
/// active Standard license and a stake below the minimum, the reward is
/// exactly the base reward times 120 / 100 — the 20% boost and nothing
/// else — provided the boosted product fits the balance type.
pub proof fn lemma_license_boost_determinism(s: RewardsState, miner: u64, now: u64)
    requires
        s.config.wf(),
        s.spec_license_active(miner, now),
        s.licenses@[miner].license_type == LicenseType::Standard,
        s.spec_staked(miner) < s.config.minimum_stake,
        s.config.base_reward * 120 <= u128::MAX,
    ensures
        s.spec_reward(miner, 100, now) == (s.config.base_reward * 120) / 100,
{
    let base = s.config.base_reward as int;
    assert(base * 100 <= base * 120) by (nonlinear_arith)
        requires
            base >= 0,
    ;
    assert((base * 100) / 100 == base) by (nonlinear_arith);
    let after_inflation = base;
    assert(s.spec_reward(miner, 100, now) == {
        let after_license = (after_inflation * 120) / 100;
        ((after_license * 100) / 100)
    }) by {
        assert(crate::arith::spec_sat128(base * 100) == base * 100);
        assert(crate::arith::spec_sat128(base * 120) == base * 120);
        let after_license = (base * 120) / 100;
        assert(0 <= after_license * 100 <= base * 120) by (nonlinear_arith)
            requires
                after_license == (base * 120) / 100,
                base >= 0,
        ;
        assert(crate::arith::spec_sat128(after_license * 100) == after_license * 100);
    }
    assert(((base * 120) / 100 * 100) / 100 == (base * 120) / 100) by (nonlinear_arith);
}

/// Idempotence of unstake: a successful unstake releases exactly the
/// recorded stake and removes the record, so in the state it leaves
/// behind nothing is staked for the caller and a second unstake is
/// rejected with `NoStake`.
pub proof fn lemma_unstake_idempotent(s: RewardsState, who: u64)
    requires
        s.spec_staked(who) == 0,
    ensures
        !(s.spec_staked(who) > 0),
        s.spec_unstake_err(Origin::Signed(who)) == crate::rewards::Error::NoStake,
{
}

} // verus!
