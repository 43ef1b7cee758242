//! Caller authentication as the core sees it.
//!
//! The environment authenticates transactions; the core only ever receives
//! the result as a plain [`Origin`] value and applies its own authorization
//! rules to it.

use vstd::prelude::*;

verus! {

/// The provenance of a call into the core.
#[derive(Clone, Copy, Debug, PartialEq, Eq, Structural)]
pub enum Origin {
    /// The privileged internal caller (the runtime itself).
    Root,
    /// An authenticated account.
    Signed(u64),
    /// An unauthenticated submission.
    Unsigned,
}

/// Council membership checking, supplied by the environment.
pub trait IsCouncilMember {
    /// Which accounts the implementation treats as council members.
    spec fn spec_is_council_member(who: u64) -> bool;

    fn is_council_member(who: &u64) -> (r: bool)
        ensures
            r == Self::spec_is_council_member(*who),
    ;
}

/// A fixed council of the accounts 1, 2 and 3, as wired by the test
/// environment.
pub struct MockCouncilMembers;

impl IsCouncilMember for MockCouncilMembers {
    open spec fn spec_is_council_member(who: u64) -> bool {
        who == 1 || who == 2 || who == 3
    }

    fn is_council_member(who: &u64) -> (r: bool) {
        matches!(*who, 1 | 2 | 3)
    }
}

/// An authorization gate that admits a signed council member of
/// [`MockCouncilMembers`] and rejects every other origin, handing the
/// rejected origin back.
pub struct MockOrigin;

impl MockOrigin {
    pub fn try_origin(o: Origin) -> (r: Result<(), Origin>)
        ensures
            r is Ok <==> (o matches Origin::Signed(who)
                && MockCouncilMembers::spec_is_council_member(who)),
            r is Err ==> r->Err_0 == o,
    {
        if let Origin::Signed(who) = o {
            if MockCouncilMembers::is_council_member(&who) {
                return Ok(());
            }
        }
        Err(o)
    }
}

} // verus!
