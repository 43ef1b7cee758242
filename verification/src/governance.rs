//! Council governance over the oracle's parameters.
//!
//! A council member proposes one parameter change; members vote; once
//! either vote set reaches the required-majority share of the council the
//! proposal resolves, and an approved change is enacted into the oracle
//! registry. A proposal whose deadline passes is dead: votes on it are
//! rejected.

use vstd::prelude::*;

use crate::authority::Origin;
use crate::arith::spec_sat_add64;
use crate::oracle::{contains_account, Error, OracleConfig, OracleState};

verus! {

/// One oracle parameter change a proposal may carry.
#[derive(Clone, Copy, Debug, PartialEq, Eq, Structural)]
pub enum Parameter {
    /// A new update interval, in blocks.
    UpdateInterval(u64),
    /// A new minimum-sources count.
    MinSources(u32),
    /// A new consensus threshold; validated and recorded, but with no
    /// stored counterpart, so enacting it has no observable effect.
    ConsensusThreshold(u32),
}

/// The lifecycle of a proposal: `Active` is initial, the rest terminal.
#[derive(Clone, Copy, Debug, PartialEq, Eq, Structural)]
pub enum ProposalStatus {
    Active,
    Approved,
    Rejected,
    Expired,
}

/// One parameter-change proposal with its recorded votes.
#[derive(Clone, Debug, PartialEq, Eq)]
pub struct Proposal {
    pub proposer: u64,
    pub parameter: Parameter,
    pub votes_for: Vec<u64>,
    pub votes_against: Vec<u64>,
    pub end_block: u64,
    pub status: ProposalStatus,
}

/// The mathematical shape of a [`Proposal`].
#[verifier::ext_equal]
pub struct ProposalView {
    pub proposer: u64,
    pub parameter: Parameter,
    pub votes_for: Seq<u64>,
    pub votes_against: Seq<u64>,
    pub end_block: u64,
    pub status: ProposalStatus,
}

impl View for Proposal {
    type V = ProposalView;

    open spec fn view(&self) -> ProposalView {
        ProposalView {
            proposer: self.proposer,
            parameter: self.parameter,
            votes_for: self.votes_for@,
            votes_against: self.votes_against@,
            end_block: self.end_block,
            status: self.status,
        }
    }
}

/// Whether `p`'s value lies within the bounds the registry enforces.
pub open spec fn spec_param_valid(c: OracleConfig, p: Parameter) -> bool {
    match p {
        Parameter::UpdateInterval(interval) => c.min_update_interval <= interval
            <= c.max_update_interval,
        Parameter::MinSources(sources) => 1 <= sources <= 10,
        Parameter::ConsensusThreshold(threshold) => 0 < threshold <= 100,
    }
}

/// Whether `who` has already voted on `p`, in either direction.
pub open spec fn spec_has_voted(p: ProposalView, who: u64) -> bool {
    p.votes_for.contains(who) || p.votes_against.contains(who)
}

/// The vote sets are sound: no voter is counted twice, on one side or
/// across the two.
pub open spec fn spec_votes_wf(p: ProposalView) -> bool {
    &&& forall|a: u64| !(#[trigger] p.votes_for.contains(a) && p.votes_against.contains(a))
    &&& forall|i: int, j: int|
        0 <= i < j < p.votes_for.len() ==> p.votes_for[i] != p.votes_for[j]
    &&& forall|i: int, j: int|
        0 <= i < j < p.votes_against.len() ==> p.votes_against[i] != p.votes_against[j]
}

/// Recording a fresh voter keeps the vote sets sound, through the
/// resolution step too.
pub proof fn lemma_votes_wf_after_vote(c: OracleConfig, p: ProposalView, who: u64, approve: bool)
    requires
        spec_votes_wf(p),
        !spec_has_voted(p, who),
    ensures
        spec_votes_wf(spec_resolved_proposal(c, spec_voted_proposal(p, who, approve))),
{
    let voted = spec_voted_proposal(p, who, approve);
    if approve {
        lemma_push_fresh(p.votes_for, who);
        assert(voted.votes_against == p.votes_against);
        assert forall|a: u64|
            !(#[trigger] voted.votes_for.contains(a) && voted.votes_against.contains(a)) by {
            if voted.votes_for.contains(a) {
                assert(p.votes_for.contains(a) || a == who);
            }
        }
    } else {
        lemma_push_fresh(p.votes_against, who);
        assert(voted.votes_for == p.votes_for);
        assert forall|a: u64|
            !(#[trigger] voted.votes_for.contains(a) && voted.votes_against.contains(a)) by {
            if voted.votes_against.contains(a) {
                assert(p.votes_against.contains(a) || a == who);
            }
        }
    }
    assert(spec_votes_wf(voted));
    let resolved = spec_resolved_proposal(c, voted);
    assert(resolved.votes_for == voted.votes_for);
    assert(resolved.votes_against == voted.votes_against);
}

/// Appending an account that is not yet in the list keeps it free of
/// duplicates, and everything in the longer list is the new account or
/// was there before.
proof fn lemma_push_fresh(s: Seq<u64>, who: u64)
    requires
        forall|i: int, j: int| 0 <= i < j < s.len() ==> s[i] != s[j],
        !s.contains(who),
    ensures
        forall|i: int, j: int| 0 <= i < j < s.push(who).len() ==> s.push(who)[i] != s.push(who)[j],
        forall|a: u64| #[trigger] s.push(who).contains(a) ==> s.contains(a) || a == who,
{
    assert forall|i: int, j: int|
        0 <= i < j < s.push(who).len() implies s.push(who)[i] != s.push(who)[j] by {
        if j < s.len() {
            assert(s.push(who)[i] == s[i] && s.push(who)[j] == s[j]);
        } else {
            assert(s.push(who)[j] == who);
            assert(s.push(who)[i] == s[i]);
            assert(s.contains(s[i]));
        }
    }
    assert forall|a: u64| #[trigger] s.push(who).contains(a) implies s.contains(a) || a == who by {
        let i = choose|i: int| 0 <= i < s.push(who).len() && s.push(who)[i] == a;
        if i < s.len() {
            assert(s[i] == a);
        }
    }
}

/// Votes one side must gather to resolve a proposal: the
/// required-majority share of the whole council, rounded up.
pub open spec fn spec_required_votes(c: OracleConfig) -> int {
    (c.council@.len() * c.required_majority + 99) / 100
}

/// Whether `p` has gathered enough votes on either side to resolve.
pub open spec fn spec_should_resolve(c: OracleConfig, p: ProposalView) -> bool {
    p.votes_for.len() >= spec_required_votes(c) || p.votes_against.len() >= spec_required_votes(c)
}

/// The update interval after enacting `p`.
pub open spec fn spec_enacted_interval(cur: u64, p: Parameter) -> u64 {
    match p {
        Parameter::UpdateInterval(interval) => interval,
        _ => cur,
    }
}

/// The minimum-sources count after enacting `p`.
pub open spec fn spec_enacted_min_sources(cur: u32, p: Parameter) -> u32 {
    match p {
        Parameter::MinSources(sources) => sources,
        _ => cur,
    }
}

/// The proposal a council member `who` opens at block `now`: the member
/// counts as the first vote in favour.
pub open spec fn spec_new_proposal(c: OracleConfig, who: u64, parameter: Parameter, now: u64) -> ProposalView {
    ProposalView {
        proposer: who,
        parameter,
        votes_for: seq![who],
        votes_against: Seq::<u64>::empty(),
        end_block: spec_sat_add64(now, c.voting_period),
        status: ProposalStatus::Active,
    }
}

/// `p` with `who`'s vote recorded on the chosen side.
pub open spec fn spec_voted_proposal(p: ProposalView, who: u64, approve: bool) -> ProposalView {
    if approve {
        ProposalView { votes_for: p.votes_for.push(who), ..p }
    } else {
        ProposalView { votes_against: p.votes_against.push(who), ..p }
    }
}

/// `p` after the resolution check: approved once the votes in favour
/// reach the required share, rejected once the votes against do, and
/// otherwise still active.
pub open spec fn spec_resolved_proposal(c: OracleConfig, p: ProposalView) -> ProposalView {
    if spec_should_resolve(c, p) {
        ProposalView {
            status: if p.votes_for.len() >= spec_required_votes(c) {
                ProposalStatus::Approved
            } else {
                ProposalStatus::Rejected
            },
            ..p
        }
    } else {
        p
    }
}

impl OracleState {
    /// The error `propose_parameter_change` reports, by precedence.
    pub open spec fn spec_propose_err(&self, origin: Origin, parameter: Parameter) -> Error {
        match origin {
            Origin::Signed(who) => {
                if !self.config.spec_is_council_member(who) {
                    Error::NotCouncilMember
                } else {
                    match parameter {
                        Parameter::UpdateInterval(interval) => {
                            if interval < self.config.min_update_interval {
                                Error::UpdateIntervalTooLow
                            } else {
                                Error::UpdateIntervalTooHigh
                            }
                        },
                        Parameter::MinSources(_) => Error::InvalidMinSources,
                        Parameter::ConsensusThreshold(_) => Error::InvalidParameterValue,
                    }
                }
            },
            _ => Error::BadOrigin,
        }
    }

    /// A council member opens a proposal for one parameter change. The
    /// value is validated against its bounds before anything is written;
    /// the proposer counts as the first vote in favour, and the proposal
    /// stays open for the configured voting period.
    pub fn propose_parameter_change(
        &mut self,
        origin: Origin,
        parameter: Parameter,
        now: u64,
    ) -> (r: Result<(), Error>)
        requires
            old(self).wf(),
        ensures
            final(self).wf(),
            r is Ok <==> (origin matches Origin::Signed(who)
                && old(self).config.spec_is_council_member(who) && spec_param_valid(
                old(self).config,
                parameter,
            )),
            r is Ok ==> ({
                &&& final(self).proposals_view() == old(self).proposals_view().push(
                    spec_new_proposal(old(self).config, origin->Signed_0, parameter, now),
                )
                &&& final(self).current_hoi == old(self).current_hoi
                &&& final(self).last_update == old(self).last_update
                &&& final(self).update_interval == old(self).update_interval
                &&& final(self).min_sources == old(self).min_sources
                &&& final(self).allowed_sources == old(self).allowed_sources
                &&& final(self).source_values == old(self).source_values
                &&& final(self).events == old(self).events
                &&& final(self).config == old(self).config
            }),
            r is Err ==> *final(self) == *old(self) && r->Err_0 == old(self).spec_propose_err(
                origin,
                parameter,
            ),
    {
        let who = match origin {
            Origin::Signed(who) => who,
            _ => {
                return Err(Error::BadOrigin);
            },
        };
        if !contains_account(&self.config.council, who) {
            return Err(Error::NotCouncilMember);
        }
        match parameter {
            Parameter::UpdateInterval(interval) => {
                if interval < self.config.min_update_interval {
                    return Err(Error::UpdateIntervalTooLow);
                }
                if interval > self.config.max_update_interval {
                    return Err(Error::UpdateIntervalTooHigh);
                }
            },
            Parameter::MinSources(sources) => {
                if !(1 <= sources && sources <= 10) {
                    return Err(Error::InvalidMinSources);
                }
            },
            Parameter::ConsensusThreshold(threshold) => {
                if !(0 < threshold && threshold <= 100) {
                    return Err(Error::InvalidParameterValue);
                }
            },
        }
        let mut votes_for: Vec<u64> = Vec::new();
        votes_for.push(who);
        let proposal = Proposal {
            proposer: who,
            parameter,
            votes_for,
            votes_against: Vec::new(),
            end_block: now.saturating_add(self.config.voting_period),
            status: ProposalStatus::Active,
        };
        proof {
            assert(proposal@ == spec_new_proposal(self.config, who, parameter, now)) by {
                assert(proposal@.votes_for =~= seq![who]);
                assert(proposal@.votes_against =~= Seq::<u64>::empty());
            }
        }
        self.proposals.push(proposal);
        proof {
            assert(self.sources() =~= old(self).sources());
            assert(self.submissions() =~= old(self).submissions());
            assert(self.events_view() =~= old(self).events_view());
            assert(self.proposals_view() =~= old(self).proposals_view().push(
                spec_new_proposal(self.config, who, parameter, now),
            ));
            assert forall|i: int|
                0 <= i < self.proposals_view().len() implies spec_param_valid(
                self.config,
                (#[trigger] self.proposals_view()[i]).parameter,
            ) && spec_votes_wf(self.proposals_view()[i]) by {
                if i < old(self).proposals_view().len() {
                    assert(self.proposals_view()[i] == old(self).proposals_view()[i]);
                    assert(spec_param_valid(old(self).config, old(self).proposals_view()[i].parameter));
                    assert(spec_votes_wf(old(self).proposals_view()[i]));
                } else {
                    let np = self.proposals_view()[i];
                    assert(np.votes_for == seq![who]);
                    assert(np.votes_against == Seq::<u64>::empty());
                    assert(forall|a: u64|
                        !(#[trigger] np.votes_for.contains(a) && np.votes_against.contains(a)));
                }
            }
        }
        Ok(())
    }

    /// The error `vote_on_proposal` reports, by precedence.
    pub open spec fn spec_vote_err(&self, origin: Origin, proposal_id: u64, now: u64) -> Error {
        match origin {
            Origin::Signed(who) => {
                if !self.config.spec_is_council_member(who) {
                    Error::NotCouncilMember
                } else if proposal_id >= self.proposals_view().len() {
                    Error::ProposalNotFound
                } else if spec_has_voted(self.proposals_view()[proposal_id as int], who) {
                    Error::AlreadyVoted
                } else {
                    Error::ProposalExpired
                }
            },
            _ => Error::BadOrigin,
        }
    }

    /// A council member votes once on an open, unexpired proposal. The
    /// vote is recorded, and as soon as either side reaches the
    /// required-majority share of the council the proposal resolves:
    /// approved when the votes in favour reached it (the change is then
    /// enacted into the registry), rejected otherwise.
    pub fn vote_on_proposal(
        &mut self,
        origin: Origin,
        proposal_id: u64,
        approve: bool,
        now: u64,
    ) -> (r: Result<(), Error>)
        requires
            old(self).wf(),
        ensures
            final(self).wf(),
            r is Ok <==> (origin matches Origin::Signed(who)
                && old(self).config.spec_is_council_member(who) && proposal_id < old(self).proposals_view().len() && !spec_has_voted(
                old(self).proposals_view()[proposal_id as int],
                who,
            ) && old(self).proposals_view()[proposal_id as int].status == ProposalStatus::Active
                && now <= old(self).proposals_view()[proposal_id as int].end_block),
            r is Ok ==> ({
                let voted = spec_voted_proposal(
                    old(self).proposals_view()[proposal_id as int],
                    origin->Signed_0,
                    approve,
                );
                let resolved = spec_resolved_proposal(old(self).config, voted);
                let enacting = resolved.status == ProposalStatus::Approved;
                &&& final(self).proposals_view() == old(self).proposals_view().update(
                    proposal_id as int,
                    resolved,
                )
                &&& final(self).update_interval == (if enacting {
                    spec_enacted_interval(old(self).update_interval, resolved.parameter)
                } else {
                    old(self).update_interval
                })
                &&& final(self).min_sources == (if enacting {
                    spec_enacted_min_sources(old(self).min_sources, resolved.parameter)
                } else {
                    old(self).min_sources
                })
                &&& final(self).current_hoi == old(self).current_hoi
                &&& final(self).last_update == old(self).last_update
                &&& final(self).allowed_sources == old(self).allowed_sources
                &&& final(self).source_values == old(self).source_values
                &&& final(self).events == old(self).events
                &&& final(self).config == old(self).config
            }),
            r is Err ==> *final(self) == *old(self) && r->Err_0 == old(self).spec_vote_err(
                origin,
                proposal_id,
                now,
            ),
    {
        let who = match origin {
            Origin::Signed(who) => who,
            _ => {
                return Err(Error::BadOrigin);
            },
        };
        if !contains_account(&self.config.council, who) {
            return Err(Error::NotCouncilMember);
        }
        if proposal_id >= self.proposals.len() as u64 {
            return Err(Error::ProposalNotFound);
        }
        let idx = proposal_id as usize;
        let voted_for = contains_account(&self.proposals[idx].votes_for, who);
        let voted_against = contains_account(&self.proposals[idx].votes_against, who);
        if voted_for || voted_against {
            return Err(Error::AlreadyVoted);
        }
        let is_active = matches!(self.proposals[idx].status, ProposalStatus::Active);
        if !is_active || now > self.proposals[idx].end_block {
            return Err(Error::ProposalExpired);
        }
        let mut p = clone_proposal(&self.proposals[idx]);
        if approve {
            p.votes_for.push(who);
        } else {
            p.votes_against.push(who);
        }
        proof {
            assert(p@ == spec_voted_proposal(old(self).proposals_view()[idx as int], who, approve));
        }
        if self.should_resolve_proposal(&p) {
            self.resolve_proposal(&mut p);
        }
        proof {
            assert(p@ == spec_resolved_proposal(
                old(self).config,
                spec_voted_proposal(old(self).proposals_view()[idx as int], who, approve),
            ));
        }
        self.proposals[idx] = p;
        proof {
            assert(self.sources() =~= old(self).sources());
            assert(self.submissions() =~= old(self).submissions());
            assert(self.proposals_view() =~= old(self).proposals_view().update(idx as int, p@));
            assert forall|i: int|
                0 <= i < self.proposals_view().len() implies spec_param_valid(
                self.config,
                (#[trigger] self.proposals_view()[i]).parameter,
            ) && spec_votes_wf(self.proposals_view()[i]) by {
                assert(spec_param_valid(old(self).config, old(self).proposals_view()[i].parameter));
                assert(spec_votes_wf(old(self).proposals_view()[i]));
                if i != idx as int {
                    assert(self.proposals_view()[i] == old(self).proposals_view()[i]);
                } else {
                    assert(self.proposals_view()[i].parameter == old(self).proposals_view()[
                        i].parameter);
                    lemma_votes_wf_after_vote(
                        old(self).config,
                        old(self).proposals_view()[i],
                        who,
                        approve,
                    );
                }
            }
        }
        Ok(())
    }

    /// Votes one side must gather to resolve a proposal (executable
    /// form of [`spec_required_votes`]).
    pub fn required_votes(&self) -> (r: u128)
        ensures
            r == spec_required_votes(self.config),
    {
        let len = self.config.council.len() as u128;
        let maj = self.config.required_majority as u128;
        proof {
            lemma_mul_bound(len as int, maj as int, u64::MAX as int, u32::MAX as int);
        }
        (len * maj + 99) / 100
    }

    /// Whether `proposal` has gathered enough votes on either side to
    /// resolve.
    pub fn should_resolve_proposal(&self, proposal: &Proposal) -> (r: bool)
        ensures
            r == spec_should_resolve(self.config, proposal@),
    {
        let needed = self.required_votes();
        proposal.votes_for.len() as u128 >= needed || proposal.votes_against.len() as u128
            >= needed
    }

    /// Resolves `proposal`: approved, and enacted into the registry,
    /// when the votes in favour reach the required share; rejected
    /// otherwise.
    pub fn resolve_proposal(&mut self, proposal: &mut Proposal)
        requires
            old(self).wf(),
            spec_param_valid(old(self).config, old(proposal)@.parameter),
        ensures
            final(self).wf(),
            ({
                let approved = old(proposal)@.votes_for.len() >= spec_required_votes(
                    old(self).config,
                );
                &&& final(proposal)@ == (ProposalView {
                    status: if approved {
                        ProposalStatus::Approved
                    } else {
                        ProposalStatus::Rejected
                    },
                    ..old(proposal)@
                })
                &&& final(self).update_interval == (if approved {
                    spec_enacted_interval(old(self).update_interval, old(proposal)@.parameter)
                } else {
                    old(self).update_interval
                })
                &&& final(self).min_sources == (if approved {
                    spec_enacted_min_sources(old(self).min_sources, old(proposal)@.parameter)
                } else {
                    old(self).min_sources
                })
                &&& final(self).current_hoi == old(self).current_hoi
                &&& final(self).last_update == old(self).last_update
                &&& final(self).allowed_sources == old(self).allowed_sources
                &&& final(self).source_values == old(self).source_values
                &&& final(self).proposals == old(self).proposals
                &&& final(self).events == old(self).events
                &&& final(self).config == old(self).config
            }),
    {
        let needed = self.required_votes();
        if proposal.votes_for.len() as u128 >= needed {
            proposal.status = ProposalStatus::Approved;
            self.enact_proposal(proposal);
        } else {
            proposal.status = ProposalStatus::Rejected;
            proof {
                crate::oracle::lemma_views_unchanged(*old(self), *self);
            }
        }
    }

    /// Writes the one parameter `proposal` names into the registry; a
    /// consensus-threshold change has no stored counterpart and changes
    /// nothing observable.
    pub fn enact_proposal(&mut self, proposal: &Proposal)
        requires
            old(self).wf(),
            spec_param_valid(old(self).config, proposal@.parameter),
        ensures
            final(self).wf(),
            final(self).update_interval == spec_enacted_interval(
                old(self).update_interval,
                proposal@.parameter,
            ),
            final(self).min_sources == spec_enacted_min_sources(
                old(self).min_sources,
                proposal@.parameter,
            ),
            final(self).current_hoi == old(self).current_hoi,
            final(self).last_update == old(self).last_update,
            final(self).allowed_sources == old(self).allowed_sources,
            final(self).source_values == old(self).source_values,
            final(self).proposals == old(self).proposals,
            final(self).events == old(self).events,
            final(self).config == old(self).config,
    {
        match proposal.parameter {
            Parameter::UpdateInterval(interval) => {
                self.update_interval = interval;
            },
            Parameter::MinSources(sources) => {
                self.min_sources = sources;
            },
            Parameter::ConsensusThreshold(_) => {},
        }
        proof {
            crate::oracle::lemma_views_unchanged(*old(self), *self);
        }
    }

    /// The stored proposal under `id`, as a copy.
    pub fn proposals(&self, id: u64) -> (r: Option<Proposal>)
        ensures
            r is Some <==> id < self.proposals_view().len(),
            r matches Some(p) ==> p@ == self.proposals_view()[id as int],
    {
        if id < self.proposals.len() as u64 {
            Some(clone_proposal(&self.proposals[id as usize]))
        } else {
            None
        }
    }
}

/// A field-for-field copy of `p`.
pub fn clone_proposal(p: &Proposal) -> (r: Proposal)
    ensures
        r@ == p@,
{
    Proposal {
        proposer: p.proposer,
        parameter: p.parameter,
        votes_for: copy_accounts(&p.votes_for),
        votes_against: copy_accounts(&p.votes_against),
        end_block: p.end_block,
        status: p.status,
    }
}

/// A copy of an account list.
pub fn copy_accounts(v: &Vec<u64>) -> (r: Vec<u64>)
    ensures
        r@ == v@,
{
    let mut r: Vec<u64> = Vec::new();
    let mut i: usize = 0;
    while i < v.len()
        invariant
            0 <= i <= v@.len(),
            r@ == v@.take(i as int),
        decreases v@.len() - i,
    {
        r.push(v[i]);
        proof {
            assert(v@.take(i + 1) =~= v@.take(i as int).push(v@[i as int]));
        }
        i += 1;
    }
    proof {
        assert(v@.take(v@.len() as int) =~= v@);
    }
    r
}

/// A product of two bounded factors stays below the product of the
/// bounds.
pub proof fn lemma_mul_bound(a: int, b: int, ca: int, cb: int)
    requires
        0 <= a <= ca,
        0 <= b <= cb,
    ensures
        a * b <= ca * cb,
{
    assert(a * b <= ca * cb) by (nonlinear_arith)
        requires
            0 <= a <= ca,
            0 <= b <= cb,
    ;
}

} // verus!
