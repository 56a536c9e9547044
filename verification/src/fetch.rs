//! Redirect handling for GET requests. A 307 or 308 response is followed
//! through its `Location` header; any other status is delivered as it is.
//! A redirect without a `Location` header is a protocol error, and a chain
//! of redirects longer than the hop limit is treated as a loop.

use vstd::prelude::*;

verus! {

/// How many redirects one GET may follow before it reports a loop.
pub const REDIRECT_LIMIT: u8 = 10;

/// The statuses that are followed: Temporary Redirect and Permanent Redirect.
pub open spec fn is_redirect_status(s: u16) -> bool {
    s == 307 || s == 308
}

/// What the redirect logic sees of one response: its status and its
/// `Location` header, if any.
pub struct HeadView {
    pub status: u16,
    pub location: Option<Seq<u8>>,
}

/// Where a chain of responses leads.
pub enum ChainOutcome {
    /// A non-redirect response is delivered: this head.
    Delivered(HeadView),
    /// A redirect carried no usable `Location`.
    Invalid,
    /// The hop budget ran out while redirects kept coming.
    LoopDetected,
    /// The chain of responses ended before a decision was reached.
    Exhausted,
}

/// The outcome of following a chain of responses with a hop budget:
/// the first non-redirect head is delivered; a redirect without `Location`
/// fails; a redirect consumes one hop and the rest of the chain decides.
pub open spec fn follow_chain(heads: Seq<HeadView>, budget: nat) -> ChainOutcome
    decreases heads.len(),
{
    if heads.len() == 0 {
        ChainOutcome::Exhausted
    } else if !is_redirect_status(heads[0].status) {
        ChainOutcome::Delivered(heads[0])
    } else if heads[0].location is None {
        ChainOutcome::Invalid
    } else if budget == 0 {
        ChainOutcome::LoopDetected
    } else {
        follow_chain(heads.drop_first(), (budget - 1) as nat)
    }
}

/// How many redirects stand at the front of the chain.
pub open spec fn leading_redirects(heads: Seq<HeadView>) -> nat
    decreases heads.len(),
{
    if heads.len() == 0 {
        0
    } else if is_redirect_status(heads[0].status) && heads[0].location is Some {
        1 + leading_redirects(heads.drop_first())
    } else {
        0
    }
}

/// One redirect hop is transparent: a 307/308 with a `Location` hands the
/// decision to the rest of the chain, with one hop spent.
pub proof fn lemma_redirect_step(heads: Seq<HeadView>, budget: nat)
    requires
        heads.len() > 0,
        is_redirect_status(heads[0].status),
        heads[0].location is Some,
        budget > 0,
    ensures
        follow_chain(heads, budget) == follow_chain(heads.drop_first(), (budget - 1) as nat),
{
}

/// As long as the chain resolves within the budget, the exact budget does
/// not matter.
pub proof fn lemma_budget_independent(heads: Seq<HeadView>, b1: nat, b2: nat)
    requires
        leading_redirects(heads) < b1,
        leading_redirects(heads) < b2,
    ensures
        follow_chain(heads, b1) == follow_chain(heads, b2),
    decreases heads.len(),
{
    if heads.len() > 0 && is_redirect_status(heads[0].status) && heads[0].location is Some {
        lemma_budget_independent(heads.drop_first(), (b1 - 1) as nat, (b2 - 1) as nat);
    }
}

/// A GET answered by 307 or 308 with `Location: L` behaves exactly as a GET
/// issued directly to `L`: given the chain resolves within the hop budget,
/// the outcome is the outcome of the remaining chain, with the full budget.
pub proof fn lemma_redirect_transparent(heads: Seq<HeadView>, budget: nat)
    requires
        heads.len() > 0,
        is_redirect_status(heads[0].status),
        heads[0].location is Some,
        leading_redirects(heads) < budget,
    ensures
        follow_chain(heads, budget) == follow_chain(heads.drop_first(), budget),
{
    lemma_redirect_step(heads, budget);
    lemma_budget_independent(heads.drop_first(), (budget - 1) as nat, budget);
}

/// The decision the follower takes on one response.
pub enum FollowStep {
    /// Deliver this response to the caller.
    Deliver,
    /// Issue a new GET to this location.
    Follow(Vec<u8>),
    /// The redirect carried no `Location` header.
    FailInvalid,
    /// Too many redirects in a row.
    FailLoop,
}

/// Follows one GET through its redirects, spending one hop per redirect.
pub struct RedirectFollower {
    pub hops: u8,
}

impl RedirectFollower {
    /// A fresh follower with no hops spent.
    pub fn new() -> (r: Self)
        ensures
            r.hops == 0,
    {
        RedirectFollower { hops: 0 }
    }

    /// Decides on one response: deliver it, follow its `Location`, or fail.
    pub fn next(&mut self, status: u16, location: Option<Vec<u8>>) -> (r: FollowStep)
        ensures
            !is_redirect_status(status) ==> r is Deliver && *final(self) == *old(self),
            is_redirect_status(status) && location is None ==> r is FailInvalid && *final(self)
                == *old(self),
            is_redirect_status(status) && location is Some && old(self).hops >= REDIRECT_LIMIT
                ==> r is FailLoop && *final(self) == *old(self),
            is_redirect_status(status) && location is Some && old(self).hops < REDIRECT_LIMIT ==> {
                &&& r matches FollowStep::Follow(l) && l@ == location->0@
                &&& final(self).hops == old(self).hops + 1
            },
    {
        if !(status == 307 || status == 308) {
            return FollowStep::Deliver;
        }
        match location {
            None => FollowStep::FailInvalid,
            Some(l) => {
                if self.hops >= REDIRECT_LIMIT {
                    FollowStep::FailLoop
                } else {
                    self.hops = self.hops + 1;
                    FollowStep::Follow(l)
                }
            },
        }
    }
}

} // verus!
