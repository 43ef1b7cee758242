//! The oracle registry and aggregator.
//!
//! Holds the authoritative HOI value together with its configuration
//! (update interval, minimum sources, allow-listed sources), collects
//! per-source submissions, and derives a consensus value as their integer
//! mean. Direct and consensus updates alike pass the same rate-limiting
//! gate: the value may change at most once per update interval.

use vstd::prelude::*;

use crate::arith::spec_sat_add64;
use crate::authority::Origin;
use crate::governance::{spec_param_valid, spec_votes_wf, Proposal, ProposalView};

verus! {

/// Why an oracle or governance action was rejected. On any error the
/// state is unchanged.
#[derive(Clone, Copy, Debug, PartialEq, Eq, Structural)]
pub enum Error {
    /// The origin does not carry the required authorization.
    BadOrigin,
    /// The caller is not a council member.
    NotCouncilMember,
    /// The source is not on the allow-list.
    InvalidSource,
    /// No proposal exists under the given id.
    ProposalNotFound,
    /// The caller already voted on this proposal.
    AlreadyVoted,
    /// The proposal is no longer open for voting.
    ProposalExpired,
    /// A consensus-threshold value outside (0, 100].
    InvalidParameterValue,
    /// Fewer sources have submitted than consensus requires.
    InsufficientSources,
    /// An update interval below the configured minimum.
    UpdateIntervalTooLow,
    /// An update interval above the configured maximum.
    UpdateIntervalTooHigh,
    /// The update interval has not elapsed since the last update.
    TooEarlyToUpdate,
    /// A minimum-sources count outside [1, 10].
    InvalidMinSources,
    /// The source is already on the allow-list.
    SourceAlreadyExists,
    /// The source is not on the allow-list.
    SourceNotFound,
    /// The allow-list is at capacity.
    TooManySources,
    /// An HOI value of zero.
    InvalidHOIValue,
}

/// A notification emitted by a successful oracle action, for external
/// consumption.
#[derive(Clone, Debug, PartialEq, Eq)]
pub enum Event {
    HOIUpdated { value: u32 },
    ParametersUpdated { update_interval: u64, min_sources: u32 },
    SourceAdded { source: Vec<u8> },
    SourceRemoved { source: Vec<u8> },
}

/// The mathematical shape of an [`Event`].
#[verifier::ext_equal]
pub enum EventView {
    HOIUpdated { value: u32 },
    ParametersUpdated { update_interval: u64, min_sources: u32 },
    SourceAdded { source: Seq<u8> },
    SourceRemoved { source: Seq<u8> },
}

impl View for Event {
    type V = EventView;

    open spec fn view(&self) -> EventView {
        match self {
            Event::HOIUpdated { value } => EventView::HOIUpdated { value: *value },
            Event::ParametersUpdated { update_interval, min_sources } => {
                EventView::ParametersUpdated {
                    update_interval: *update_interval,
                    min_sources: *min_sources,
                }
            },
            Event::SourceAdded { source } => EventView::SourceAdded { source: source@ },
            Event::SourceRemoved { source } => EventView::SourceRemoved { source: source@ },
        }
    }
}

/// One source's most recent raw submission.
#[derive(Clone, Debug, PartialEq, Eq)]
pub struct SourceValue {
    pub source: Vec<u8>,
    pub value: u32,
}

impl View for SourceValue {
    type V = (Seq<u8>, u32);

    open spec fn view(&self) -> (Seq<u8>, u32) {
        (self.source@, self.value)
    }
}

/// Fixed configuration of the oracle, chosen by the environment at
/// genesis and never mutated afterwards.
#[derive(Clone, Debug, PartialEq, Eq)]
pub struct OracleConfig {
    /// Lowest admissible update interval, in blocks.
    pub min_update_interval: u64,
    /// Highest admissible update interval, in blocks.
    pub max_update_interval: u64,
    /// Minimum-sources count the oracle starts with.
    pub min_sources_for_consensus: u32,
    /// How long a proposal stays open, in blocks.
    pub voting_period: u64,
    /// Majority requirement for proposals, as a percentage of the council.
    pub required_majority: u32,
    /// The council accounts, free of duplicates.
    pub council: Vec<u64>,
}

impl OracleConfig {
    pub open spec fn wf(&self) -> bool {
        &&& 1 <= self.min_update_interval <= self.max_update_interval
        &&& 1 <= self.min_sources_for_consensus <= 10
        &&& 1 <= self.required_majority <= 100
    }

    pub open spec fn spec_is_council_member(&self, who: u64) -> bool {
        self.council@.contains(who)
    }
}

/// The whole oracle state: configuration, current value, raw submissions
/// and open proposals.
pub struct OracleState {
    pub config: OracleConfig,
    /// The authoritative consensus value, in hundredths.
    pub current_hoi: u32,
    /// Block of the last accepted update; 0 while no update happened yet.
    pub last_update: u64,
    /// Blocks that must elapse between two accepted updates.
    pub update_interval: u64,
    /// Distinct sources needed before consensus is computed.
    pub min_sources: u32,
    /// Allow-listed source identifiers, distinct, at most 10.
    pub allowed_sources: Vec<Vec<u8>>,
    /// Latest submission per allow-listed source, keyed uniquely.
    pub source_values: Vec<SourceValue>,
    /// All proposals ever made, keyed by their index.
    pub proposals: Vec<Proposal>,
    /// Notifications emitted by successful actions, oldest first.
    pub events: Vec<Event>,
}

/// Whether `s` holds a submission for `key`.
pub open spec fn spec_has_key(s: Seq<(Seq<u8>, u32)>, key: Seq<u8>) -> bool {
    exists|i: int| 0 <= i < s.len() && (#[trigger] s[i]).0 == key
}

/// The index of `key`'s submission; meaningful only under [`spec_has_key`].
pub open spec fn spec_key_index(s: Seq<(Seq<u8>, u32)>, key: Seq<u8>) -> int {
    choose|i: int| 0 <= i < s.len() && (#[trigger] s[i]).0 == key
}

/// The index of `x` in a source list; meaningful only when present.
pub open spec fn spec_source_index(s: Seq<Seq<u8>>, x: Seq<u8>) -> int {
    choose|i: int| 0 <= i < s.len() && s[i] == x
}

/// `s` with `key`'s submission set to `value`: overwritten in place when
/// present, appended otherwise.
pub open spec fn spec_upsert(s: Seq<(Seq<u8>, u32)>, key: Seq<u8>, value: u32) -> Seq<
    (Seq<u8>, u32),
> {
    if spec_has_key(s, key) {
        s.update(spec_key_index(s, key), (key, value))
    } else {
        s.push((key, value))
    }
}

/// The stored value for `key`, with 0 for an absent key.
pub open spec fn spec_submission_value(s: Seq<(Seq<u8>, u32)>, key: Seq<u8>) -> u32 {
    if spec_has_key(s, key) {
        s[spec_key_index(s, key)].1
    } else {
        0
    }
}

/// Sum of all submitted values.
pub open spec fn spec_sum(s: Seq<(Seq<u8>, u32)>) -> int
    decreases s.len(),
{
    if s.len() == 0 {
        0
    } else {
        spec_sum(s.drop_last()) + s.last().1
    }
}

/// The integer (truncating) mean of all submitted values; meaningful only
/// for a non-empty sequence.
pub open spec fn spec_mean(s: Seq<(Seq<u8>, u32)>) -> int {
    spec_sum(s) / (s.len() as int)
}

/// A list of byte strings, seen as a sequence of sequences.
pub open spec fn spec_bytes_list_view(l: Seq<Vec<u8>>) -> Seq<Seq<u8>> {
    l.map_values(|s: Vec<u8>| s@)
}

impl OracleState {
    /// The allow-list as a sequence of byte strings.
    pub open spec fn sources(&self) -> Seq<Seq<u8>> {
        spec_bytes_list_view(self.allowed_sources@)
    }

    /// The submissions as (source, value) pairs.
    pub open spec fn submissions(&self) -> Seq<(Seq<u8>, u32)> {
        self.source_values@.map_values(|sv: SourceValue| sv@)
    }

    /// The proposals in mathematical form.
    pub open spec fn proposals_view(&self) -> Seq<ProposalView> {
        self.proposals@.map_values(|p: Proposal| p@)
    }

    /// The emitted notifications in mathematical form.
    pub open spec fn events_view(&self) -> Seq<EventView> {
        self.events@.map_values(|e: Event| e@)
    }

    /// Structural invariant: configuration and parameters in range, the
    /// allow-list distinct and bounded, submissions keyed uniquely by
    /// allow-listed sources, and every stored proposal carrying a
    /// validated parameter.
    pub open spec fn wf(&self) -> bool {
        &&& self.config.wf()
        &&& self.config.min_update_interval <= self.update_interval <= self.config.max_update_interval
        &&& 1 <= self.min_sources <= 10
        &&& self.sources().len() <= 10
        &&& forall|i: int, j: int|
            0 <= i < j < self.sources().len() ==> #[trigger] self.sources()[i]
                != #[trigger] self.sources()[j]
        &&& forall|i: int, j: int|
            0 <= i < j < self.submissions().len() ==> (#[trigger] self.submissions()[i]).0 != (
            #[trigger] self.submissions()[j]).0
        &&& forall|i: int|
            0 <= i < self.submissions().len() ==> self.sources().contains(
                (#[trigger] self.submissions()[i]).0,
            )
        &&& forall|i: int|
            0 <= i < self.proposals_view().len() ==> spec_param_valid(
                self.config,
                (#[trigger] self.proposals_view()[i]).parameter,
            )
        &&& forall|i: int|
            0 <= i < self.proposals_view().len() ==> spec_votes_wf(
                #[trigger] self.proposals_view()[i],
            )
    }

    /// Whether `origin` may submit oracle values: the runtime itself, or
    /// a signed council member.
    pub open spec fn spec_oracle_origin_ok(&self, origin: Origin) -> bool {
        match origin {
            Origin::Root => true,
            Origin::Signed(who) => self.config.spec_is_council_member(who),
            Origin::Unsigned => false,
        }
    }

    /// Whether `origin` may change oracle parameters; the same rule as
    /// for value submissions.
    pub open spec fn spec_governance_origin_ok(&self, origin: Origin) -> bool {
        self.spec_oracle_origin_ok(origin)
    }

    /// The rate-limiting gate: open while no update ever happened, and
    /// again once the update interval has elapsed.
    pub open spec fn update_gate_open(&self, now: u64) -> bool {
        self.last_update == 0 || now >= spec_sat_add64(self.last_update, self.update_interval)
    }

    /// The error `submit_hoi` reports, by precedence.
    pub open spec fn spec_submit_hoi_err(&self, origin: Origin, value: u32, now: u64) -> Error {
        if !self.spec_oracle_origin_ok(origin) {
            Error::BadOrigin
        } else if value == 0 {
            Error::InvalidHOIValue
        } else {
            Error::TooEarlyToUpdate
        }
    }

    /// Directly sets the oracle value, subject to authorization, a
    /// non-zero value, and the update-interval gate.
    pub fn submit_hoi(&mut self, origin: Origin, value: u32, now: u64) -> (r: Result<(), Error>)
        requires
            old(self).wf(),
        ensures
            final(self).wf(),
            r is Ok <==> old(self).spec_oracle_origin_ok(origin) && value > 0 && old(self).update_gate_open(now),
            r is Ok ==> ({
                &&& final(self).current_hoi == value
                &&& final(self).last_update == now
                &&& final(self).events_view() == old(self).events_view().push(
                    EventView::HOIUpdated { value },
                )
                &&& final(self).update_interval == old(self).update_interval
                &&& final(self).min_sources == old(self).min_sources
                &&& final(self).allowed_sources == old(self).allowed_sources
                &&& final(self).source_values == old(self).source_values
                &&& final(self).proposals == old(self).proposals
                &&& final(self).config == old(self).config
            }),
            r is Err ==> *final(self) == *old(self) && r->Err_0 == old(self).spec_submit_hoi_err(
                origin,
                value,
                now,
            ),
    {
        if !self.oracle_origin_ok(origin) {
            return Err(Error::BadOrigin);
        }
        if value == 0 {
            return Err(Error::InvalidHOIValue);
        }
        if !(self.last_update == 0 || now >= self.last_update.saturating_add(
            self.update_interval,
        )) {
            return Err(Error::TooEarlyToUpdate);
        }
        self.current_hoi = value;
        self.last_update = now;
        let ghost pre_events = self.events@;
        self.events.push(Event::HOIUpdated { value });
        proof {
            lemma_events_push(pre_events, Event::HOIUpdated { value });
            lemma_views_unchanged(*old(self), *self);
        }
        Ok(())
    }

    /// The error `update_parameters` reports, by precedence.
    pub open spec fn spec_update_parameters_err(
        &self,
        origin: Origin,
        new_interval: u64,
        new_min_sources: u32,
    ) -> Error {
        if !self.spec_governance_origin_ok(origin) {
            Error::BadOrigin
        } else if new_interval < self.config.min_update_interval {
            Error::UpdateIntervalTooLow
        } else if new_interval > self.config.max_update_interval {
            Error::UpdateIntervalTooHigh
        } else {
            Error::InvalidMinSources
        }
    }

    /// Privileged parameter update: sets the update interval and the
    /// minimum-sources count, after validating both against their bounds.
    pub fn update_parameters(
        &mut self,
        origin: Origin,
        new_interval: u64,
        new_min_sources: u32,
    ) -> (r: Result<(), Error>)
        requires
            old(self).wf(),
        ensures
            final(self).wf(),
            r is Ok <==> old(self).spec_governance_origin_ok(origin) && old(self).config.min_update_interval <= new_interval <= old(self).config.max_update_interval
                && 1 <= new_min_sources <= 10,
            r is Ok ==> ({
                &&& final(self).update_interval == new_interval
                &&& final(self).min_sources == new_min_sources
                &&& final(self).events_view() == old(self).events_view().push(
                    EventView::ParametersUpdated {
                        update_interval: new_interval,
                        min_sources: new_min_sources,
                    },
                )
                &&& final(self).current_hoi == old(self).current_hoi
                &&& final(self).last_update == old(self).last_update
                &&& final(self).allowed_sources == old(self).allowed_sources
                &&& final(self).source_values == old(self).source_values
                &&& final(self).proposals == old(self).proposals
                &&& final(self).config == old(self).config
            }),
            r is Err ==> *final(self) == *old(self) && r->Err_0 == old(self).spec_update_parameters_err(origin, new_interval, new_min_sources),
    {
        if !self.governance_origin_ok(origin) {
            return Err(Error::BadOrigin);
        }
        if new_interval < self.config.min_update_interval {
            return Err(Error::UpdateIntervalTooLow);
        }
        if new_interval > self.config.max_update_interval {
            return Err(Error::UpdateIntervalTooHigh);
        }
        if !(1 <= new_min_sources && new_min_sources <= 10) {
            return Err(Error::InvalidMinSources);
        }
        self.update_interval = new_interval;
        self.min_sources = new_min_sources;
        let ghost pre_events = self.events@;
        self.events.push(
            Event::ParametersUpdated { update_interval: new_interval, min_sources: new_min_sources },
        );
        proof {
            lemma_events_push(
                pre_events,
                Event::ParametersUpdated {
                    update_interval: new_interval,
                    min_sources: new_min_sources,
                },
            );
            lemma_views_unchanged(*old(self), *self);
        }
        Ok(())
    }

    /// Whether `origin` may submit oracle values (executable form).
    pub fn oracle_origin_ok(&self, origin: Origin) -> (r: bool)
        ensures
            r == self.spec_oracle_origin_ok(origin),
    {
        match origin {
            Origin::Root => true,
            Origin::Signed(who) => contains_account(&self.config.council, who),
            Origin::Unsigned => false,
        }
    }

    /// Whether `origin` may change oracle parameters (executable form).
    pub fn governance_origin_ok(&self, origin: Origin) -> (r: bool)
        ensures
            r == self.spec_governance_origin_ok(origin),
    {
        self.oracle_origin_ok(origin)
    }

    /// Whether `source` is allow-listed.
    pub fn is_allowed_source(&self, source: &Vec<u8>) -> (r: bool)
        ensures
            r == self.sources().contains(source@),
    {
        find_bytes(&self.allowed_sources, source).is_some()
    }

    /// The error `add_source` reports, by precedence.
    pub open spec fn spec_add_source_err(&self, origin: Origin, source: Seq<u8>) -> Error {
        if !self.spec_governance_origin_ok(origin) {
            Error::BadOrigin
        } else if self.sources().contains(source) {
            Error::SourceAlreadyExists
        } else {
            Error::TooManySources
        }
    }

    /// Privileged: appends `source` to the allow-list, rejecting
    /// duplicates and respecting the capacity of 10.
    pub fn add_source(&mut self, origin: Origin, source: Vec<u8>) -> (r: Result<(), Error>)
        requires
            old(self).wf(),
        ensures
            final(self).wf(),
            r is Ok <==> old(self).spec_governance_origin_ok(origin) && !old(self).sources().contains(source@) && old(self).sources().len() < 10,
            r is Ok ==> ({
                &&& final(self).sources() == old(self).sources().push(source@)
                &&& final(self).events_view() == old(self).events_view().push(
                    EventView::SourceAdded { source: source@ },
                )
                &&& final(self).submissions() == old(self).submissions()
                &&& final(self).current_hoi == old(self).current_hoi
                &&& final(self).last_update == old(self).last_update
                &&& final(self).update_interval == old(self).update_interval
                &&& final(self).min_sources == old(self).min_sources
                &&& final(self).proposals == old(self).proposals
                &&& final(self).config == old(self).config
            }),
            r is Err ==> *final(self) == *old(self) && r->Err_0 == old(self).spec_add_source_err(
                origin,
                source@,
            ),
    {
        if !self.governance_origin_ok(origin) {
            return Err(Error::BadOrigin);
        }
        if find_bytes(&self.allowed_sources, &source).is_some() {
            return Err(Error::SourceAlreadyExists);
        }
        if self.allowed_sources.len() >= 10 {
            return Err(Error::TooManySources);
        }
        let ghost src_view = source@;
        let s_copy = copy_bytes(&source);
        self.allowed_sources.push(s_copy);
        self.events.push(Event::SourceAdded { source });
        proof {
            assert(self.sources() =~= old(self).sources().push(src_view));
            assert(self.submissions() =~= old(self).submissions());
            assert(self.proposals_view() =~= old(self).proposals_view());
            assert(self.events_view() =~= old(self).events_view().push(
                EventView::SourceAdded { source: src_view },
            ));
            assert forall|i: int|
                0 <= i < self.submissions().len() implies self.sources().contains(
                (#[trigger] self.submissions()[i]).0,
            ) by {
                let k = self.submissions()[i].0;
                assert(old(self).sources().contains(k));
                let j = choose|j: int|
                    0 <= j < old(self).sources().len() && old(self).sources()[j] == k;
                assert(self.sources()[j] == k);
            }
        }
        Ok(())
    }

    /// The error `remove_source` reports, by precedence.
    pub open spec fn spec_remove_source_err(&self, origin: Origin) -> Error {
        if !self.spec_governance_origin_ok(origin) {
            Error::BadOrigin
        } else {
            Error::SourceNotFound
        }
    }

    /// Privileged: removes `source` from the allow-list, together with
    /// any raw submission it made, so that every stored submission keeps
    /// an allow-listed source.
    pub fn remove_source(&mut self, origin: Origin, source: Vec<u8>) -> (r: Result<(), Error>)
        requires
            old(self).wf(),
        ensures
            final(self).wf(),
            r is Ok <==> old(self).spec_governance_origin_ok(origin) && old(self).sources().contains(source@),
            r is Ok ==> ({
                &&& final(self).sources() == old(self).sources().remove(
                    spec_source_index(old(self).sources(), source@),
                )
                &&& final(self).submissions() == (if spec_has_key(
                    old(self).submissions(),
                    source@,
                ) {
                    old(self).submissions().remove(
                        spec_key_index(old(self).submissions(), source@),
                    )
                } else {
                    old(self).submissions()
                })
                &&& final(self).events_view() == old(self).events_view().push(
                    EventView::SourceRemoved { source: source@ },
                )
                &&& final(self).current_hoi == old(self).current_hoi
                &&& final(self).last_update == old(self).last_update
                &&& final(self).update_interval == old(self).update_interval
                &&& final(self).min_sources == old(self).min_sources
                &&& final(self).proposals == old(self).proposals
                &&& final(self).config == old(self).config
            }),
            r is Err ==> *final(self) == *old(self) && r->Err_0 == old(self).spec_remove_source_err(origin),
    {
        if !self.governance_origin_ok(origin) {
            return Err(Error::BadOrigin);
        }
        let pos = match find_bytes(&self.allowed_sources, &source) {
            Some(pos) => pos,
            None => {
                return Err(Error::SourceNotFound);
            },
        };
        self.allowed_sources.remove(pos);
        proof {
            lemma_unique_index(old(self).sources(), source@, pos as int);
            assert(self.sources() =~= old(self).sources().remove(pos as int));
        }
        let sub_pos = find_submission(&self.source_values, &source);
        match sub_pos {
            Some(sp) => {
                self.source_values.remove(sp);
                proof {
                    lemma_unique_key_index(old(self).submissions(), source@, sp as int);
                    assert(self.submissions() =~= old(self).submissions().remove(sp as int));
                }
            },
            None => {
                proof {
                    assert(self.submissions() =~= old(self).submissions());
                }
            },
        }
        let ghost src_view = source@;
        self.events.push(Event::SourceRemoved { source });
        proof {
            assert(self.events_view() =~= old(self).events_view().push(
                EventView::SourceRemoved { source: src_view },
            ));
            assert(self.proposals_view() =~= old(self).proposals_view());
            self.lemma_remove_source_wf(*old(self), src_view, pos as int);
        }
        Ok(())
    }

    /// Removing an allow-list entry and its submission keeps the state
    /// well-formed: distinctness survives deletion, and every remaining
    /// submission's source survives on the allow-list.
    proof fn lemma_remove_source_wf(&self, pre: OracleState, key: Seq<u8>, pos: int)
        requires
            pre.wf(),
            0 <= pos < pre.sources().len(),
            pre.sources()[pos] == key,
            self.sources() == pre.sources().remove(pos),
            self.submissions() == (if spec_has_key(pre.submissions(), key) {
                pre.submissions().remove(spec_key_index(pre.submissions(), key))
            } else {
                pre.submissions()
            }),
            self.config == pre.config,
            self.update_interval == pre.update_interval,
            self.min_sources == pre.min_sources,
            self.proposals_view() == pre.proposals_view(),
        ensures
            self.wf(),
    {
        let pre_srcs = pre.sources();
        let pre_subs = pre.submissions();
        let ghost ki: int = if spec_has_key(pre_subs, key) {
            spec_key_index(pre_subs, key)
        } else {
            pre_subs.len() as int
        };
        assert(spec_has_key(pre_subs, key) ==> 0 <= ki < pre_subs.len() && pre_subs[ki].0 == key);
        // an index into the shortened list, mapped back to the original
        let back_src = |i: int| if i < pos { i } else { i + 1 };
        assert forall|i: int, j: int|
            0 <= i < j < self.sources().len() implies #[trigger] self.sources()[i]
            != #[trigger] self.sources()[j] by {
            assert(self.sources()[i] == pre_srcs[back_src(i)]);
            assert(self.sources()[j] == pre_srcs[back_src(j)]);
        }
        let back_sub = |i: int| if i < ki { i } else { i + 1 };
        assert forall|i: int, j: int|
            0 <= i < j < self.submissions().len() implies (#[trigger] self.submissions()[i]).0 != (
            #[trigger] self.submissions()[j]).0 by {
            if spec_has_key(pre_subs, key) {
                assert(self.submissions()[i] == pre_subs[back_sub(i)]);
                assert(self.submissions()[j] == pre_subs[back_sub(j)]);
            } else {
                assert(self.submissions()[i] == pre_subs[i]);
                assert(self.submissions()[j] == pre_subs[j]);
            }
        }
        assert forall|i: int|
            0 <= i < self.submissions().len() implies self.sources().contains(
            (#[trigger] self.submissions()[i]).0,
        ) by {
            let k = self.submissions()[i].0;
            if spec_has_key(pre_subs, key) {
                assert(self.submissions()[i] == pre_subs[back_sub(i)]);
                assert(pre_subs[back_sub(i)].0 == k);
                assert(back_sub(i) != ki);
                assert(k != key);
            } else {
                assert(self.submissions()[i] == pre_subs[i]);
                assert(pre_subs[i].0 == k);
                if k == key {
                    assert(spec_has_key(pre_subs, key));
                }
                assert(k != key);
            }
            assert(pre_srcs.contains(k));
            let j = choose|j: int| 0 <= j < pre_srcs.len() && pre_srcs[j] == k;
            assert(j != pos);
            let nj = if j < pos {
                j
            } else {
                j - 1
            };
            assert(self.sources()[nj] == pre_srcs[j]);
        }
        assert forall|i: int|
            0 <= i < self.proposals_view().len() implies spec_param_valid(
            self.config,
            (#[trigger] self.proposals_view()[i]).parameter,
        ) && spec_votes_wf(self.proposals_view()[i]) by {
            assert(self.proposals_view()[i] == pre.proposals_view()[i]);
            assert(spec_param_valid(pre.config, pre.proposals_view()[i].parameter));
            assert(spec_votes_wf(pre.proposals_view()[i]));
        }
    }

    /// The error `submit_source_value` reports, by precedence.
    pub open spec fn spec_submit_source_err(&self, origin: Origin) -> Error {
        if !self.spec_oracle_origin_ok(origin) {
            Error::BadOrigin
        } else {
            Error::InvalidSource
        }
    }

    /// Stores (or overwrites) one allow-listed source's raw value, then
    /// attempts consensus: once enough sources have submitted, the mean
    /// is applied through the same gated update path, and a closed gate
    /// or a zero mean leaves the authoritative value silently unchanged.
    pub fn submit_source_value(
        &mut self,
        origin: Origin,
        source: Vec<u8>,
        value: u32,
        now: u64,
    ) -> (r: Result<(), Error>)
        requires
            old(self).wf(),
        ensures
            final(self).wf(),
            r is Ok <==> old(self).spec_oracle_origin_ok(origin) && old(self).sources().contains(
                source@,
            ),
            r is Ok ==> ({
                let subs = spec_upsert(old(self).submissions(), source@, value);
                let applied = subs.len() >= old(self).min_sources && old(self).update_gate_open(
                    now,
                ) && spec_mean(subs) > 0;
                &&& final(self).submissions() == subs
                &&& final(self).sources() == old(self).sources()
                &&& final(self).update_interval == old(self).update_interval
                &&& final(self).min_sources == old(self).min_sources
                &&& final(self).proposals == old(self).proposals
                &&& final(self).config == old(self).config
                &&& applied ==> final(self).current_hoi == spec_mean(subs) && final(self).last_update == now && final(self).events_view() == old(self).events_view().push(
                    EventView::HOIUpdated { value: spec_mean(subs) as u32 },
                )
                &&& !applied ==> final(self).current_hoi == old(self).current_hoi && final(self).last_update == old(self).last_update && final(self).events_view() == old(self).events_view()
            }),
            r is Err ==> *final(self) == *old(self) && r->Err_0 == old(self).spec_submit_source_err(origin),
    {
        if !self.oracle_origin_ok(origin) {
            return Err(Error::BadOrigin);
        }
        if !self.is_allowed_source(&source) {
            return Err(Error::InvalidSource);
        }
        let ghost src_view = source@;
        let ghost pre_subs = self.submissions();
        match find_submission(&self.source_values, &source) {
            Some(i) => {
                self.source_values[i] = SourceValue { source, value };
                proof {
                    assert(spec_has_key(pre_subs, src_view));
                    lemma_unique_key_index(pre_subs, src_view, i as int);
                    assert(self.submissions() =~= pre_subs.update(i as int, (src_view, value)));
                }
            },
            None => {
                self.source_values.push(SourceValue { source, value });
                proof {
                    assert(self.submissions() =~= pre_subs.push((src_view, value)));
                }
            },
        }
        proof {
            assert(self.sources() =~= old(self).sources());
            assert(self.proposals_view() =~= old(self).proposals_view());
            self.lemma_upsert_wf(*old(self), src_view, value);
        }
        let _ = self.try_consensus(now);
        Ok(())
    }

    /// Overwriting or appending a submission for an allow-listed source
    /// keeps the state well-formed.
    proof fn lemma_upsert_wf(&self, pre: OracleState, key: Seq<u8>, value: u32)
        requires
            pre.wf(),
            pre.sources().contains(key),
            self.submissions() == spec_upsert(pre.submissions(), key, value),
            self.sources() == pre.sources(),
            self.config == pre.config,
            self.update_interval == pre.update_interval,
            self.min_sources == pre.min_sources,
            self.proposals_view() == pre.proposals_view(),
            self.current_hoi == pre.current_hoi,
            self.last_update == pre.last_update,
        ensures
            self.wf(),
    {
        let pre_subs = pre.submissions();
        if spec_has_key(pre_subs, key) {
            let ki = spec_key_index(pre_subs, key);
            assert(0 <= ki < pre_subs.len() && pre_subs[ki].0 == key);
            assert forall|i: int, j: int|
                0 <= i < j < self.submissions().len() implies (#[trigger] self.submissions()[
                i]).0 != (#[trigger] self.submissions()[j]).0 by {
                assert(pre_subs[i].0 != pre_subs[j].0);
            }
            assert forall|i: int|
                0 <= i < self.submissions().len() implies self.sources().contains(
                (#[trigger] self.submissions()[i]).0,
            ) by {
                if i != ki {
                    assert(self.submissions()[i] == pre_subs[i]);
                }
            }
        } else {
            assert forall|i: int, j: int|
                0 <= i < j < self.submissions().len() implies (#[trigger] self.submissions()[
                i]).0 != (#[trigger] self.submissions()[j]).0 by {
                if j < pre_subs.len() {
                    assert(pre_subs[i].0 != pre_subs[j].0);
                } else {
                    assert(self.submissions()[j].0 == key);
                    assert(self.submissions()[i] == pre_subs[i]);
                    if pre_subs[i].0 == key {
                        assert(spec_has_key(pre_subs, key));
                    }
                }
            }
            assert forall|i: int|
                0 <= i < self.submissions().len() implies self.sources().contains(
                (#[trigger] self.submissions()[i]).0,
            ) by {
                if i < pre_subs.len() {
                    assert(self.submissions()[i] == pre_subs[i]);
                }
            }
        }
        assert forall|i: int|
            0 <= i < self.proposals_view().len() implies spec_param_valid(
            self.config,
            (#[trigger] self.proposals_view()[i]).parameter,
        ) && spec_votes_wf(self.proposals_view()[i]) by {
            assert(self.proposals_view()[i] == pre.proposals_view()[i]);
            assert(spec_param_valid(pre.config, pre.proposals_view()[i].parameter));
            assert(spec_votes_wf(pre.proposals_view()[i]));
        }
    }

    /// The error `try_consensus` reports, by precedence.
    pub open spec fn spec_try_consensus_err(&self, now: u64) -> Error {
        if self.submissions().len() < self.min_sources {
            Error::InsufficientSources
        } else if spec_mean(self.submissions()) == 0 {
            Error::InvalidHOIValue
        } else {
            Error::TooEarlyToUpdate
        }
    }

    /// Applies the integer mean of the current submissions through the
    /// gated update path, once at least the minimum number of sources
    /// have submitted. Consensus cannot bypass the rate limit.
    pub fn try_consensus(&mut self, now: u64) -> (r: Result<(), Error>)
        requires
            old(self).wf(),
        ensures
            final(self).wf(),
            r is Ok <==> old(self).submissions().len() >= old(self).min_sources && old(self).update_gate_open(now) && spec_mean(old(self).submissions()) > 0,
            r is Ok ==> ({
                &&& final(self).current_hoi == spec_mean(old(self).submissions())
                &&& final(self).last_update == now
                &&& final(self).events_view() == old(self).events_view().push(
                    EventView::HOIUpdated { value: spec_mean(old(self).submissions()) as u32 },
                )
                &&& final(self).update_interval == old(self).update_interval
                &&& final(self).min_sources == old(self).min_sources
                &&& final(self).allowed_sources == old(self).allowed_sources
                &&& final(self).source_values == old(self).source_values
                &&& final(self).proposals == old(self).proposals
                &&& final(self).config == old(self).config
            }),
            r is Err ==> *final(self) == *old(self) && r->Err_0 == old(self).spec_try_consensus_err(now),
    {
        if self.source_values.len() < self.min_sources as usize {
            return Err(Error::InsufficientSources);
        }
        let avg = self.mean_of_submissions();
        self.submit_hoi(Origin::Root, avg, now)
    }

    /// The integer mean of the current submissions.
    fn mean_of_submissions(&self) -> (r: u32)
        requires
            self.source_values@.len() > 0,
        ensures
            r == spec_mean(self.submissions()),
    {
        let n = self.source_values.len();
        let mut sum: u128 = 0;
        let mut i: usize = 0;
        while i < n
            invariant
                n == self.source_values@.len(),
                0 <= i <= n,
                sum == spec_sum(self.submissions().take(i as int)),
                sum <= (i as int) * (u32::MAX as int),
            decreases n - i,
        {
            let v = self.source_values[i].value;
            proof {
                let subs = self.submissions();
                assert(subs.take(i + 1).drop_last() =~= subs.take(i as int));
                assert(subs.take(i + 1).last() == subs[i as int]);
                assert(subs[i as int].1 == v);
            }
            sum = sum + v as u128;
            i += 1;
        }
        proof {
            assert(self.submissions().take(n as int) =~= self.submissions());
            lemma_div_bound(sum as int, n as int, u32::MAX as int);
        }
        (sum / (n as u128)) as u32
    }

    /// Whether the environment's off-chain worker is due to fetch fresh
    /// data: immediately while no update ever happened, then once per
    /// elapsed update interval.
    pub fn should_fetch(&self, block_number: u64) -> (r: bool)
        ensures
            r == (self.last_update == 0 || block_number > spec_sat_add64(
                self.last_update,
                self.update_interval,
            )),
    {
        self.last_update == 0 || block_number > self.last_update.saturating_add(
            self.update_interval,
        )
    }

    /// Fills unset (zero) parameters with their configured defaults;
    /// set parameters are left alone.
    pub fn initialize_defaults(&mut self)
        requires
            old(self).config.wf(),
        ensures
            final(self).update_interval == (if old(self).update_interval == 0 {
                old(self).config.min_update_interval
            } else {
                old(self).update_interval
            }),
            final(self).min_sources == (if old(self).min_sources == 0 {
                old(self).config.min_sources_for_consensus
            } else {
                old(self).min_sources
            }),
            final(self).config == old(self).config,
            final(self).current_hoi == old(self).current_hoi,
            final(self).last_update == old(self).last_update,
            final(self).allowed_sources == old(self).allowed_sources,
            final(self).source_values == old(self).source_values,
            final(self).proposals == old(self).proposals,
            final(self).events == old(self).events,
            old(self).wf() ==> final(self).wf(),
    {
        if self.update_interval == 0 {
            self.update_interval = self.config.min_update_interval;
        }
        if self.min_sources == 0 {
            self.min_sources = self.config.min_sources_for_consensus;
        }
        proof {
            lemma_views_unchanged(*old(self), *self);
        }
    }

    /// The authoritative HOI value.
    pub fn current_hoi(&self) -> (r: u32)
        ensures
            r == self.current_hoi,
    {
        self.current_hoi
    }

    /// The block of the last accepted update.
    pub fn last_update(&self) -> (r: u64)
        ensures
            r == self.last_update,
    {
        self.last_update
    }

    /// The blocks that must elapse between accepted updates.
    pub fn update_interval(&self) -> (r: u64)
        ensures
            r == self.update_interval,
    {
        self.update_interval
    }

    /// The distinct sources needed before consensus is computed.
    pub fn min_sources(&self) -> (r: u32)
        ensures
            r == self.min_sources,
    {
        self.min_sources
    }

    /// The allow-listed source identifiers.
    pub fn allowed_sources(&self) -> (r: &Vec<Vec<u8>>)
        ensures
            r@ == self.allowed_sources@,
    {
        &self.allowed_sources
    }

    /// The stored raw value for `source`, with 0 for a source that has
    /// not submitted.
    pub fn source_values(&self, source: &Vec<u8>) -> (r: u32)
        requires
            self.wf(),
        ensures
            r == spec_submission_value(self.submissions(), source@),
    {
        match find_submission(&self.source_values, source) {
            Some(i) => {
                proof {
                    lemma_unique_key_index_weak(self.submissions(), source@, i as int);
                }
                self.source_values[i].value
            },
            None => 0,
        }
    }
}

/// In a duplicate-free source list, membership has a unique witness, so
/// the chosen index is the found one.
pub proof fn lemma_unique_index(s: Seq<Seq<u8>>, x: Seq<u8>, pos: int)
    requires
        0 <= pos < s.len(),
        s[pos] == x,
        forall|i: int, j: int| 0 <= i < j < s.len() ==> #[trigger] s[i] != #[trigger] s[j],
    ensures
        spec_source_index(s, x) == pos,
{
    let idx = spec_source_index(s, x);
    assert(0 <= idx < s.len() && s[idx] == x);
}

/// In a uniquely-keyed submission list, a key's index is the found one.
pub proof fn lemma_unique_key_index(s: Seq<(Seq<u8>, u32)>, key: Seq<u8>, pos: int)
    requires
        0 <= pos < s.len(),
        s[pos].0 == key,
        forall|i: int, j: int|
            0 <= i < j < s.len() ==> (#[trigger] s[i]).0 != (#[trigger] s[j]).0,
    ensures
        spec_key_index(s, key) == pos,
{
    assert(spec_has_key(s, key));
    let idx = spec_key_index(s, key);
    assert(0 <= idx < s.len() && s[idx].0 == key);
}

/// A state whose collections are untouched keeps all its views.
pub proof fn lemma_views_unchanged(pre: OracleState, post: OracleState)
    requires
        post.allowed_sources == pre.allowed_sources,
        post.source_values == pre.source_values,
        post.proposals == pre.proposals,
    ensures
        post.sources() == pre.sources(),
        post.submissions() == pre.submissions(),
        post.proposals_view() == pre.proposals_view(),
{
    assert(post.sources() =~= pre.sources());
    assert(post.submissions() =~= pre.submissions());
    assert(post.proposals_view() =~= pre.proposals_view());
}

/// `ev` appended to an event log, seen through the views.
pub proof fn lemma_events_push(pre: Seq<Event>, ev: Event)
    ensures
        pre.push(ev).map_values(|e: Event| e@) == pre.map_values(|e: Event| e@).push(ev@),
{
    assert(pre.push(ev).map_values(|e: Event| e@) =~= pre.map_values(|e: Event| e@).push(ev@));
}

/// Whether `who` occurs in `accounts`.
pub fn contains_account(accounts: &Vec<u64>, who: u64) -> (r: bool)
    ensures
        r == accounts@.contains(who),
{
    let mut i: usize = 0;
    while i < accounts.len()
        invariant
            0 <= i <= accounts@.len(),
            forall|j: int| 0 <= j < i ==> accounts@[j] != who,
        decreases accounts@.len() - i,
    {
        if accounts[i] == who {
            return true;
        }
        i += 1;
    }
    false
}

/// Whether two byte strings hold the same bytes.
pub fn bytes_eq(a: &Vec<u8>, b: &Vec<u8>) -> (r: bool)
    ensures
        r == (a@ == b@),
{
    if a.len() != b.len() {
        return false;
    }
    let mut i: usize = 0;
    while i < a.len()
        invariant
            a@.len() == b@.len(),
            0 <= i <= a@.len(),
            forall|j: int| 0 <= j < i ==> a@[j] == b@[j],
        decreases a@.len() - i,
    {
        if a[i] != b[i] {
            return false;
        }
        i += 1;
    }
    proof {
        assert(a@ =~= b@);
    }
    true
}

/// The position of `x` in `list`, if any.
pub fn find_bytes(list: &Vec<Vec<u8>>, x: &Vec<u8>) -> (r: Option<usize>)
    ensures
        r matches Some(i) ==> i < list@.len() && list@.map_values(|s: Vec<u8>| s@)[i as int] == x@,
        r is None ==> !list@.map_values(|s: Vec<u8>| s@).contains(x@),
{
    let ghost view = list@.map_values(|s: Vec<u8>| s@);
    let mut i: usize = 0;
    while i < list.len()
        invariant
            view == list@.map_values(|s: Vec<u8>| s@),
            0 <= i <= list@.len(),
            forall|j: int| 0 <= j < i ==> view[j] != x@,
        decreases list@.len() - i,
    {
        if bytes_eq(&list[i], x) {
            return Some(i);
        }
        i += 1;
    }
    proof {
        assert(forall|j: int| 0 <= j < view.len() ==> view[j] != x@);
    }
    None
}

/// The position of `x`'s submission in `list`, if any.
pub fn find_submission(list: &Vec<SourceValue>, x: &Vec<u8>) -> (r: Option<usize>)
    ensures
        r matches Some(i) ==> i < list@.len() && list@.map_values(|sv: SourceValue| sv@)[
            i as int
        ].0 == x@,
        r is None ==> !spec_has_key(list@.map_values(|sv: SourceValue| sv@), x@),
{
    let ghost view = list@.map_values(|sv: SourceValue| sv@);
    let mut i: usize = 0;
    while i < list.len()
        invariant
            view == list@.map_values(|sv: SourceValue| sv@),
            0 <= i <= list@.len(),
            forall|j: int| 0 <= j < i ==> (#[trigger] view[j]).0 != x@,
        decreases list@.len() - i,
    {
        if bytes_eq(&list[i].source, x) {
            return Some(i);
        }
        i += 1;
    }
    None
}

/// A byte-for-byte copy of `x`.
pub fn copy_bytes(x: &Vec<u8>) -> (r: Vec<u8>)
    ensures
        r@ == x@,
{
    let mut r: Vec<u8> = Vec::new();
    let mut i: usize = 0;
    while i < x.len()
        invariant
            0 <= i <= x@.len(),
            r@ == x@.take(i as int),
        decreases x@.len() - i,
    {
        r.push(x[i]);
        proof {
            assert(x@.take(i + 1 as int) =~= x@.take(i as int).push(x@[i as int]));
        }
        i += 1;
    }
    proof {
        assert(x@.take(x@.len() as int) =~= x@);
    }
    r
}

/// A sum bounded by `n * m` divides by `n` to at most `m`.
pub proof fn lemma_div_bound(s: int, n: int, m: int)
    requires
        n >= 1,
        0 <= s <= n * m,
        m >= 0,
    ensures
        0 <= s / n <= m,
{
    assert(0 <= s / n <= m) by (nonlinear_arith)
        requires
            n >= 1,
            0 <= s <= n * m,
            m >= 0,
    ;
}

/// Like [`lemma_unique_key_index`], but without assuming global
/// distinctness: it needs only that the found entry is the chosen one or
/// shares its key.
proof fn lemma_unique_key_index_weak(s: Seq<(Seq<u8>, u32)>, key: Seq<u8>, pos: int)
    requires
        0 <= pos < s.len(),
        s[pos].0 == key,
        forall|i: int, j: int|
            0 <= i < j < s.len() ==> (#[trigger] s[i]).0 != (#[trigger] s[j]).0,
    ensures
        spec_has_key(s, key),
        spec_key_index(s, key) == pos,
{
    lemma_unique_key_index(s, key, pos);
}

/// Whether an unsigned (off-chain) HOI submission is admissible: any
/// positive value is, zero is not.
pub fn validate_unsigned(hoi_value: u32) -> (valid: bool)
    ensures
        valid <==> hoi_value > 0,
{
    hoi_value > 0
}

/// Whether a genesis allow-list is admissible: within capacity and free
/// of duplicates.
pub open spec fn spec_genesis_sources_ok(ss: Seq<Seq<u8>>) -> bool {
    ss.len() <= 10 && forall|i: int, j: int| 0 <= i < j < ss.len() ==> ss[i] != ss[j]
}

/// The genesis configuration of the oracle: the initial allow-list.
pub struct GenesisConfig {
    pub initial_sources: Vec<Vec<u8>>,
}

impl Default for GenesisConfig {
    /// A genesis configuration with an empty allow-list.
    fn default() -> (g: GenesisConfig)
        ensures
            g.initial_sources@.len() == 0,
    {
        GenesisConfig { initial_sources: Vec::new() }
    }
}

impl GenesisConfig {
    /// Builds the genesis oracle state: parameters at their configured
    /// defaults, no value, no submissions, no proposals. The initial
    /// allow-list is taken whole when admissible and dropped whole
    /// otherwise, as an ill-formed genesis list.
    pub fn build(&self, config: OracleConfig) -> (s: OracleState)
        requires
            config.wf(),
        ensures
            s.wf(),
            s.config == config,
            s.current_hoi == 0,
            s.last_update == 0,
            s.update_interval == config.min_update_interval,
            s.min_sources == config.min_sources_for_consensus,
            spec_genesis_sources_ok(spec_bytes_list_view(self.initial_sources@)) ==> s.sources()
                == spec_bytes_list_view(self.initial_sources@),
            !spec_genesis_sources_ok(spec_bytes_list_view(self.initial_sources@)) ==> s.sources()
                == Seq::<Seq<u8>>::empty(),
            s.submissions() == Seq::<(Seq<u8>, u32)>::empty(),
            s.proposals_view() == Seq::<ProposalView>::empty(),
            s.events_view() == Seq::<EventView>::empty(),
    {
        let sources = if self.initial_sources.len() <= 10 && sources_distinct(
            &self.initial_sources,
        ) {
            copy_source_list(&self.initial_sources)
        } else {
            Vec::new()
        };
        let mut state = OracleState {
            config,
            current_hoi: 0,
            last_update: 0,
            update_interval: 0,
            min_sources: 0,
            allowed_sources: sources,
            source_values: Vec::new(),
            proposals: Vec::new(),
            events: Vec::new(),
        };
        state.initialize_defaults();
        proof {
            assert(state.submissions() =~= Seq::<(Seq<u8>, u32)>::empty());
            assert(state.proposals_view() =~= Seq::<ProposalView>::empty());
            assert(state.events_view() =~= Seq::<EventView>::empty());
            if spec_genesis_sources_ok(spec_bytes_list_view(self.initial_sources@)) {
                assert(state.sources() == spec_bytes_list_view(self.initial_sources@));
            } else {
                assert(state.sources() =~= Seq::<Seq<u8>>::empty());
            }
        }
        state
    }
}

/// Whether `list` holds no byte string twice.
pub fn sources_distinct(list: &Vec<Vec<u8>>) -> (r: bool)
    ensures
        r == (forall|i: int, j: int|
            0 <= i < j < spec_bytes_list_view(list@).len() ==> spec_bytes_list_view(list@)[i]
                != spec_bytes_list_view(list@)[j]),
{
    let ghost view = spec_bytes_list_view(list@);
    let mut i: usize = 0;
    while i < list.len()
        invariant
            view == spec_bytes_list_view(list@),
            0 <= i <= view.len(),
            forall|p: int, q: int| 0 <= p < q < i ==> view[p] != view[q],
        decreases view.len() - i,
    {
        let mut j: usize = 0;
        while j < i
            invariant
                view == spec_bytes_list_view(list@),
                0 <= j <= i < view.len(),
                forall|p: int, q: int| 0 <= p < q < i ==> view[p] != view[q],
                forall|q: int| 0 <= q < j ==> view[q] != view[i as int],
            decreases i - j,
        {
            if bytes_eq(&list[j], &list[i]) {
                proof {
                    assert(view[j as int] == view[i as int]);
                }
                return false;
            }
            j += 1;
        }
        i += 1;
    }
    true
}

/// A copy of a source list, byte for byte.
pub fn copy_source_list(list: &Vec<Vec<u8>>) -> (r: Vec<Vec<u8>>)
    ensures
        spec_bytes_list_view(r@) == spec_bytes_list_view(list@),
{
    let mut r: Vec<Vec<u8>> = Vec::new();
    let mut i: usize = 0;
    while i < list.len()
        invariant
            0 <= i <= list@.len(),
            r@.len() == i,
            forall|q: int| 0 <= q < i ==> (#[trigger] r@[q])@ == list@[q]@,
        decreases list@.len() - i,
    {
        r.push(copy_bytes(&list[i]));
        i += 1;
    }
    proof {
        assert(spec_bytes_list_view(r@) =~= spec_bytes_list_view(list@));
    }
    r
}

} // verus!
