//! The round's data model: the phase clock, the immutable configuration, and
//! the durable state (proposals, votes, the id sequence) that the three
//! operations read and write. The host's storage is modelled as an explicit
//! state value handed into every operation, so the well-formedness invariant
//! `RoundState::wf` can be stated and preserved by every mutation.

use vstd::prelude::*;

use crate::helper::bytes_eq;
use crate::matching::QuadraticFundingAlgorithm;

verus! {

/// A condition that expires once the chain reaches a given block height or a
/// given timestamp; `Never` keeps the window open forever.
#[derive(Clone, Copy, Debug, PartialEq, Eq, Structural)]
pub enum Expiration {
    AtHeight(u64),
    AtTime(u64),
    Never,
}

/// The monotonic clock a host supplies with every call: the current block
/// height and block timestamp.
#[derive(Clone, Copy, Debug, PartialEq, Eq, Structural)]
pub struct BlockInfo {
    pub height: u64,
    pub time: u64,
}

/// Whether the condition `e` has expired at block `b`.
pub open spec fn spec_is_expired(e: Expiration, b: BlockInfo) -> bool {
    match e {
        Expiration::AtHeight(h) => b.height >= h,
        Expiration::AtTime(t) => b.time >= t,
        Expiration::Never => false,
    }
}

impl Expiration {
    /// The phase clock: evaluates this expiration condition at block `block`.
    pub fn is_expired(&self, block: &BlockInfo) -> (r: bool)
        ensures
            r == spec_is_expired(*self, *block),
    {
        match self {
            Expiration::AtHeight(h) => block.height >= *h,
            Expiration::AtTime(t) => block.time >= *t,
            Expiration::Never => false,
        }
    }
}

/// An amount of one denomination. Addresses and denominations are opaque to
/// this library and carried as plain bytes; the host canonicalizes them.
#[derive(Clone, Debug, PartialEq, Eq)]
pub struct Coin {
    pub denom: Vec<u8>,
    pub amount: u128,
}

/// Who sent an operation and which coins came attached to it.
#[derive(Clone, Debug, PartialEq, Eq)]
pub struct MessageInfo {
    pub sender: Vec<u8>,
    pub sent_funds: Vec<Coin>,
}

/// The round's configuration: set once when the round is initialized,
/// immutable afterwards.
#[derive(Clone, Debug, PartialEq, Eq)]
pub struct Config {
    /// The only address allowed to trigger the distribution.
    pub admin: Vec<u8>,
    /// Leftover budget from the distribution is sent here.
    pub leftover_addr: Vec<u8>,
    /// If present, only these addresses may create proposals.
    pub create_proposal_whitelist: Option<Vec<Vec<u8>>>,
    /// If present, only these addresses may vote.
    pub vote_proposal_whitelist: Option<Vec<Vec<u8>>>,
    pub voting_period: Expiration,
    pub proposal_period: Expiration,
    /// The fixed matching pool, collected when the round is initialized.
    pub budget: Coin,
    pub algorithm: QuadraticFundingAlgorithm,
}

/// A funding proposal. Immutable except for `collected_funds`, which grows
/// with every accepted vote.
#[derive(Clone, Debug, PartialEq, Eq)]
pub struct Proposal {
    /// Unique, assigned in order of creation starting at 1, never reused.
    pub id: u64,
    pub title: String,
    pub description: String,
    /// Opaque bytes, informational only.
    pub metadata: Option<Vec<u8>>,
    /// Recipient of this proposal's match and collected votes.
    pub fund_address: Vec<u8>,
    /// Running sum of all vote amounts this proposal has received.
    pub collected_funds: u128,
}

/// One backer's monetary vote on one proposal. At most one vote may exist per
/// `(proposal_id, voter)` pair.
#[derive(Clone, Debug, PartialEq, Eq)]
pub struct Vote {
    pub proposal_id: u64,
    pub voter: Vec<u8>,
    pub fund: Coin,
}

/// The sum of a list of amounts, as an unbounded integer.
pub open spec fn sum_amounts(s: Seq<u128>) -> int
    decreases s.len(),
{
    if s.len() == 0 {
        0
    } else {
        sum_amounts(s.drop_last()) + s.last()
    }
}

/// The amounts of the votes cast on proposal `pid`, in insertion order.
pub open spec fn votes_for(votes: Seq<Vote>, pid: u64) -> Seq<u128>
    decreases votes.len(),
{
    if votes.len() == 0 {
        Seq::empty()
    } else {
        let rest = votes_for(votes.drop_last(), pid);
        if votes.last().proposal_id == pid {
            rest.push(votes.last().fund.amount)
        } else {
            rest
        }
    }
}

/// Whether `voter` has already voted on proposal `pid`.
pub open spec fn spec_has_vote(votes: Seq<Vote>, pid: u64, voter: Seq<u8>) -> bool {
    exists|i: int|
        0 <= i < votes.len() && (#[trigger] votes[i]).proposal_id == pid && votes[i].voter@ == voter
}

/// The whole durable state of one round: the configuration, the id sequence
/// counter, the proposal registry (ascending by id) and the vote ledger
/// (insertion order).
#[derive(Clone, Debug)]
pub struct RoundState {
    pub config: Config,
    pub proposal_seq: u64,
    pub proposals: Vec<Proposal>,
    pub votes: Vec<Vote>,
}

impl RoundState {
    /// Well-formedness, established by `init` and preserved by every
    /// operation: the sequence counter counts the proposals; proposal ids are
    /// exactly 1..=N in order; at most one vote per (proposal, voter) pair;
    /// every vote points at an existing proposal and is denominated in the
    /// round's budget denomination; and every proposal's `collected_funds`
    /// equals the sum of the votes persisted for it.
    pub open spec fn wf(self) -> bool {
        &&& self.proposal_seq == self.proposals@.len()
        &&& forall|i: int|
            0 <= i < self.proposals@.len() ==> (#[trigger] self.proposals@[i]).id == i + 1
        &&& forall|i: int, j: int|
            0 <= i < j < self.votes@.len() ==> !((#[trigger] self.votes@[i]).proposal_id
                == (#[trigger] self.votes@[j]).proposal_id && self.votes@[i].voter@
                == self.votes@[j].voter@)
        &&& forall|i: int|
            0 <= i < self.votes@.len() ==> 1 <= (#[trigger] self.votes@[i]).proposal_id
                <= self.proposals@.len()
        &&& forall|i: int|
            0 <= i < self.votes@.len() ==> (#[trigger] self.votes@[i]).fund.denom@
                == self.config.budget.denom@
        &&& forall|i: int|
            0 <= i < self.proposals@.len() ==> (#[trigger] self.proposals@[i]).collected_funds
                as int == sum_amounts(votes_for(self.votes@, (i + 1) as u64))
    }
}

/// The current value of the proposal id sequence: the number of proposals
/// created so far, and one less than the id the next proposal will get.
pub fn proposal_seq(state: &RoundState) -> (r: u64)
    ensures
        r == state.proposal_seq,
{
    state.proposal_seq
}

/// Monotonic id assignment: in any well-formed round the proposals carry
/// exactly the ids 1..=N in creation order, with no gaps and no repeats,
/// however many operations succeeded or failed on the way there.
pub proof fn lemma_monotonic_ids(s: RoundState)
    requires
        s.wf(),
    ensures
        forall|i: int| 0 <= i < s.proposals@.len() ==> (#[trigger] s.proposals@[i]).id == i + 1,
        forall|i: int, j: int|
            0 <= i < s.proposals@.len() && 0 <= j < s.proposals@.len() && i != j
                ==> s.proposals@[i].id != s.proposals@[j].id,
{
}

/// Appending a vote extends the filtered amounts of its own proposal by its
/// amount and leaves every other proposal's amounts unchanged.
pub proof fn lemma_votes_for_push(votes: Seq<Vote>, v: Vote, pid: u64)
    ensures
        v.proposal_id == pid ==> votes_for(votes.push(v), pid) == votes_for(votes, pid).push(
            v.fund.amount,
        ),
        v.proposal_id != pid ==> votes_for(votes.push(v), pid) == votes_for(votes, pid),
{
    assert(votes.push(v).drop_last() =~= votes);
    assert(votes.push(v).last() == v);
}

/// Appending an amount adds it to the sum.
pub proof fn lemma_sum_amounts_push(s: Seq<u128>, a: u128)
    ensures
        sum_amounts(s.push(a)) == sum_amounts(s) + a,
{
    assert(s.push(a).drop_last() =~= s);
}

/// Extending a scanned prefix of the ledger by one vote extends its filtered
/// amounts exactly when that vote is on the scanned proposal.
pub proof fn lemma_votes_for_prefix(votes: Seq<Vote>, pid: u64, i: int)
    requires
        0 <= i < votes.len(),
    ensures
        votes[i].proposal_id == pid ==> votes_for(votes.subrange(0, i + 1), pid) == votes_for(
            votes.subrange(0, i),
            pid,
        ).push(votes[i].fund.amount),
        votes[i].proposal_id != pid ==> votes_for(votes.subrange(0, i + 1), pid) == votes_for(
            votes.subrange(0, i),
            pid,
        ),
{
    assert(votes.subrange(0, i + 1).drop_last() =~= votes.subrange(0, i));
    assert(votes.subrange(0, i + 1).last() == votes[i]);
}

/// The vote ledger's range scan: the amounts of the votes cast on proposal
/// `pid`, in insertion order.
pub fn list_votes_for(votes: &Vec<Vote>, pid: u64) -> (r: Vec<u128>)
    ensures
        r@ == votes_for(votes@, pid),
{
    let mut r: Vec<u128> = Vec::new();
    let mut i: usize = 0;
    proof {
        assert(votes@.subrange(0, 0) =~= Seq::<Vote>::empty());
    }
    while i < votes.len()
        invariant
            i <= votes@.len(),
            r@ == votes_for(votes@.subrange(0, i as int), pid),
        decreases votes@.len() - i,
    {
        proof {
            lemma_votes_for_prefix(votes@, pid, i as int);
        }
        if votes[i].proposal_id == pid {
            r.push(votes[i].fund.amount);
        }
        i = i + 1;
    }
    proof {
        assert(votes@.subrange(0, votes@.len() as int) =~= votes@);
    }
    r
}

/// Whether `voter` has already voted on proposal `pid`: a linear scan of the
/// vote ledger.
pub fn has_vote(votes: &Vec<Vote>, pid: u64, voter: &Vec<u8>) -> (r: bool)
    ensures
        r == spec_has_vote(votes@, pid, voter@),
{
    let mut i: usize = 0;
    while i < votes.len()
        invariant
            i <= votes@.len(),
            forall|j: int|
                0 <= j < i ==> !((#[trigger] votes@[j]).proposal_id == pid && votes@[j].voter@
                    == voter@),
        decreases votes@.len() - i,
    {
        let v = &votes[i];
        if v.proposal_id == pid && bytes_eq(&v.voter, voter) {
            return true;
        }
        i = i + 1;
    }
    false
}

/// A proposal nothing voted on has no vote amounts.
pub proof fn lemma_votes_for_absent(votes: Seq<Vote>, pid: u64)
    requires
        forall|i: int| 0 <= i < votes.len() ==> (#[trigger] votes[i]).proposal_id != pid,
    ensures
        votes_for(votes, pid) == Seq::<u128>::empty(),
    decreases votes.len(),
{
    if votes.len() > 0 {
        lemma_votes_for_absent(votes.drop_last(), pid);
    }
}

} // verus!
