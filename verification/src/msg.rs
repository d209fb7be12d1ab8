//! The operations a host can ask of the round and the structured values the
//! round answers with: messages in, payment instructions, event attributes
//! and raw payloads out.

use vstd::prelude::*;

use crate::error::ContractError;
use crate::helper::extract_funding_coin;
use crate::matching::QuadraticFundingAlgorithm;
use crate::state::{spec_is_expired, BlockInfo, Coin, Expiration, MessageInfo, Proposal};

verus! {

/// The request that initializes a round.
#[derive(Clone, Debug)]
pub struct InitMsg {
    pub admin: Vec<u8>,
    pub leftover_addr: Vec<u8>,
    pub create_proposal_whitelist: Option<Vec<Vec<u8>>>,
    pub vote_proposal_whitelist: Option<Vec<Vec<u8>>>,
    pub voting_period: Expiration,
    pub proposal_period: Expiration,
    pub budget_denom: Vec<u8>,
    pub algorithm: QuadraticFundingAlgorithm,
}

impl InitMsg {
    /// A round may only start while both of its windows are still open and
    /// with exactly one coin attached as the matching budget.
    pub fn validate(&self, env: &BlockInfo, info: &MessageInfo) -> (r: Result<(), ContractError>)
        ensures
            spec_is_expired(self.proposal_period, *env) ==> r == Err::<(), ContractError>(
                ContractError::ProposalPeriodExpired,
            ),
            !spec_is_expired(self.proposal_period, *env) && spec_is_expired(
                self.voting_period,
                *env,
            ) ==> r == Err::<(), ContractError>(ContractError::VotingPeriodExpired),
            !spec_is_expired(self.proposal_period, *env) && !spec_is_expired(
                self.voting_period,
                *env,
            ) ==> {
                &&& info.sent_funds@.len() == 0 ==> r == Err::<(), ContractError>(
                    ContractError::ExpectedCoinNotSent,
                )
                &&& info.sent_funds@.len() > 1 ==> r == Err::<(), ContractError>(
                    ContractError::MultipleCoinsSent,
                )
                &&& info.sent_funds@.len() == 1 ==> r == Ok::<(), ContractError>(())
            },
    {
        if self.proposal_period.is_expired(env) {
            return Err(ContractError::ProposalPeriodExpired);
        }
        if self.voting_period.is_expired(env) {
            return Err(ContractError::VotingPeriodExpired);
        }
        match extract_funding_coin(&info.sent_funds) {
            Ok(_) => Ok(()),
            Err(e) => Err(e),
        }
    }
}

/// The three operations that mutate or close a round.
#[derive(Clone, Debug)]
pub enum HandleMsg {
    CreateProposal {
        title: String,
        description: String,
        metadata: Option<Vec<u8>>,
        fund_address: Vec<u8>,
    },
    VoteProposal { proposal_id: u64 },
    TriggerDistribution,
}

/// The read-only queries.
#[derive(Clone, Copy, Debug, PartialEq, Eq, Structural)]
pub enum QueryMsg {
    ProposalByID { id: u64 },
    AllProposals,
}

/// The answer to `AllProposals`: every proposal, ascending by id.
#[derive(Clone, Debug, PartialEq, Eq)]
pub struct AllProposalsResponse {
    pub proposals: Vec<Proposal>,
}

/// The answer to a query.
#[derive(Clone, Debug, PartialEq, Eq)]
pub enum QueryResponse {
    Proposal(Proposal),
    AllProposals(AllProposalsResponse),
}

/// One payment instruction the host is asked to carry out: send `amount` to
/// `to_address`.
#[derive(Clone, Debug, PartialEq, Eq)]
pub struct Payment {
    pub to_address: Vec<u8>,
    pub amount: Coin,
}

/// The value of one event attribute.
#[derive(Clone, Debug, PartialEq, Eq)]
pub enum AttributeValue {
    Text(String),
    Bytes(Vec<u8>),
    Uint(u128),
}

/// One structured event attribute.
#[derive(Clone, Debug, PartialEq, Eq)]
pub struct Attribute {
    pub key: String,
    pub value: AttributeValue,
}

/// What a successful operation hands back to the host: payment instructions
/// to carry out, event attributes to record, and an optional raw payload.
#[derive(Clone, Debug, PartialEq, Eq)]
pub struct HandleResponse {
    pub messages: Vec<Payment>,
    pub attributes: Vec<Attribute>,
    pub data: Option<Vec<u8>>,
}

/// `a` is a text attribute `key: val`.
pub open spec fn spec_attr_text(a: Attribute, key: Seq<char>, val: Seq<char>) -> bool {
    &&& a.key@ == key
    &&& a.value matches AttributeValue::Text(t) && t@ == val
}

/// `a` is a byte-string attribute `key: val`.
pub open spec fn spec_attr_bytes(a: Attribute, key: Seq<char>, val: Seq<u8>) -> bool {
    &&& a.key@ == key
    &&& a.value matches AttributeValue::Bytes(b) && b@ == val
}

/// `a` is a numeric attribute `key: val`.
pub open spec fn spec_attr_uint(a: Attribute, key: Seq<char>, val: u128) -> bool {
    &&& a.key@ == key
    &&& a.value matches AttributeValue::Uint(u) && u == val
}

} // verus!
