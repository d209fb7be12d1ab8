//! The Round Controller: the state machine that drives a round. Each
//! operation re-derives the relevant window and whitelist checks from the
//! supplied clock and the immutable configuration, and either mutates the
//! round state atomically or fails with a typed error and no partial write.

use vstd::prelude::*;

use crate::error::ContractError;
use crate::helper::{
    addr_in_list, bytes_eq, clone_bytes, extract_budget_coin, spec_u64_be_bytes, spec_whitelisted,
    u64_to_be_bytes,
};
use crate::matching::{
    calculate_clr, clr_overflows, fundss_of, liberal_match, liberal_total, scaled_match,
    scaled_sum, QuadraticFundingAlgorithm, RawGrant,
};
use crate::msg::{
    spec_attr_bytes, spec_attr_text, spec_attr_uint, AllProposalsResponse, Attribute,
    AttributeValue, HandleMsg, HandleResponse, InitMsg, Payment, QueryMsg, QueryResponse,
};
use crate::state::{
    has_vote, lemma_sum_amounts_push, lemma_votes_for_absent, lemma_votes_for_push,
    list_votes_for, spec_has_vote, spec_is_expired, sum_amounts, votes_for, BlockInfo, Coin,
    Config, MessageInfo, Proposal, RoundState, Vote,
};

verus! {

/// Whether `sender` passes an optional whitelist: an absent whitelist admits
/// every address.
pub open spec fn spec_authorized(wl: Option<Vec<Vec<u8>>>, sender: Seq<u8>) -> bool {
    match wl {
        None => true,
        Some(l) => spec_whitelisted(l@, sender),
    }
}

/// The authorization guard.
fn check_whitelist(wl: &Option<Vec<Vec<u8>>>, sender: &Vec<u8>) -> (r: bool)
    ensures
        r == spec_authorized(*wl, sender@),
{
    match wl {
        None => true,
        Some(l) => addr_in_list(l, sender),
    }
}

/// A fresh round built from `msg`, funded with `amount` of the budget
/// denomination: empty registry, empty ledger, sequence at zero, every
/// configuration field taken from the request.
pub open spec fn spec_init_ok(s: RoundState, msg: InitMsg, amount: u128) -> bool {
    &&& s.proposal_seq == 0
    &&& s.proposals@.len() == 0
    &&& s.votes@.len() == 0
    &&& s.config.admin == msg.admin
    &&& s.config.leftover_addr == msg.leftover_addr
    &&& s.config.create_proposal_whitelist == msg.create_proposal_whitelist
    &&& s.config.vote_proposal_whitelist == msg.vote_proposal_whitelist
    &&& s.config.voting_period == msg.voting_period
    &&& s.config.proposal_period == msg.proposal_period
    &&& s.config.budget.denom@ == msg.budget_denom@
    &&& s.config.budget.amount == amount
    &&& s.config.algorithm == msg.algorithm
}

/// Initializes a round. Both windows must still be open, and exactly one
/// coin, of the budget denomination, must be attached: it becomes the
/// matching pool. On success the returned state is the round's durable
/// storage, handed back into every later operation.
pub fn init(env: &BlockInfo, info: &MessageInfo, msg: InitMsg) -> (r: Result<
    RoundState,
    ContractError,
>)
    ensures
        spec_is_expired(msg.proposal_period, *env) ==> r == Err::<RoundState, ContractError>(
            ContractError::ProposalPeriodExpired,
        ),
        !spec_is_expired(msg.proposal_period, *env) && spec_is_expired(msg.voting_period, *env)
            ==> r == Err::<RoundState, ContractError>(ContractError::VotingPeriodExpired),
        !spec_is_expired(msg.proposal_period, *env) && !spec_is_expired(msg.voting_period, *env)
            ==> {
            &&& info.sent_funds@.len() == 0 ==> r == Err::<RoundState, ContractError>(
                ContractError::ExpectedCoinNotSent,
            )
            &&& info.sent_funds@.len() > 1 ==> r == Err::<RoundState, ContractError>(
                ContractError::MultipleCoinsSent,
            )
            &&& info.sent_funds@.len() == 1 && info.sent_funds@[0].denom@ != msg.budget_denom@
                ==> (r matches Err(e) && e matches ContractError::WrongFundCoin { expected, got }
                && expected@ == msg.budget_denom@ && got@ == info.sent_funds@[0].denom@)
            &&& info.sent_funds@.len() == 1 && info.sent_funds@[0].denom@ == msg.budget_denom@
                ==> (r matches Ok(s) && s.wf() && spec_init_ok(
                s,
                msg,
                info.sent_funds@[0].amount,
            ))
        },
        r is Ok <==> (!spec_is_expired(msg.proposal_period, *env) && !spec_is_expired(
            msg.voting_period,
            *env,
        ) && info.sent_funds@.len() == 1 && info.sent_funds@[0].denom@ == msg.budget_denom@),
{
    match msg.validate(env, info) {
        Ok(u) => u,
        Err(e) => {
            return Err(e);
        },
    };
    let budget = match extract_budget_coin(&info.sent_funds, &msg.budget_denom) {
        Ok(c) => c,
        Err(e) => {
            return Err(e);
        },
    };
    let InitMsg {
        admin,
        leftover_addr,
        create_proposal_whitelist,
        vote_proposal_whitelist,
        voting_period,
        proposal_period,
        budget_denom: _,
        algorithm,
    } = msg;
    let config = Config {
        admin,
        leftover_addr,
        create_proposal_whitelist,
        vote_proposal_whitelist,
        voting_period,
        proposal_period,
        budget,
        algorithm,
    };
    let s = RoundState { config, proposal_seq: 0, proposals: Vec::new(), votes: Vec::new() };
    Ok(s)
}

/// The one step CreateProposal takes on success: the sequence advances by
/// one, the new proposal is appended carrying the next id and no collected
/// funds yet, and nothing else moves.
pub open spec fn spec_created(
    old_s: RoundState,
    new_s: RoundState,
    title: String,
    description: String,
    metadata: Option<Vec<u8>>,
    fund_address: Vec<u8>,
) -> bool {
    &&& new_s.config == old_s.config
    &&& new_s.proposal_seq == old_s.proposal_seq + 1
    &&& new_s.votes@ == old_s.votes@
    &&& new_s.proposals@ == old_s.proposals@.push(
        Proposal {
            id: (old_s.proposal_seq + 1) as u64,
            title,
            description,
            metadata,
            fund_address,
            collected_funds: 0,
        },
    )
}

/// CreateProposal's successful response: no payments, the new id big-endian
/// in the raw payload, and the three event attributes.
pub open spec fn spec_create_response(resp: HandleResponse, title: Seq<char>, id: u64) -> bool {
    &&& resp.messages@.len() == 0
    &&& resp.data matches Some(d) && d@ == spec_u64_be_bytes(id)
    &&& resp.attributes@.len() == 3
    &&& spec_attr_text(resp.attributes@[0], "action"@, "create_proposal"@)
    &&& spec_attr_text(resp.attributes@[1], "title"@, title)
    &&& spec_attr_uint(resp.attributes@[2], "proposal_id"@, id as u128)
}

/// The complete behaviour of CreateProposal: refused for a sender outside a
/// configured whitelist, refused once the proposal window has expired, and
/// otherwise owed success; a refused call leaves the state untouched, in
/// particular the id sequence does not advance.
pub open spec fn spec_create_proposal(
    old_s: RoundState,
    new_s: RoundState,
    env: BlockInfo,
    info: MessageInfo,
    title: String,
    description: String,
    metadata: Option<Vec<u8>>,
    fund_address: Vec<u8>,
    r: Result<HandleResponse, ContractError>,
) -> bool {
    let authorized = spec_authorized(old_s.config.create_proposal_whitelist, info.sender@);
    let window_open = !spec_is_expired(old_s.config.proposal_period, env);
    &&& !authorized ==> r == Err::<HandleResponse, ContractError>(ContractError::Unauthorized)
        && new_s == old_s
    &&& authorized && !window_open ==> r == Err::<HandleResponse, ContractError>(
        ContractError::ProposalPeriodExpired,
    ) && new_s == old_s
    &&& authorized && window_open ==> (r matches Ok(resp) && spec_created(
        old_s,
        new_s,
        title,
        description,
        metadata,
        fund_address,
    ) && spec_create_response(resp, title@, (old_s.proposal_seq + 1) as u64))
    &&& r is Ok <==> (authorized && window_open)
}

/// CreateProposal: admits the sender, checks the proposal window, assigns
/// the next id and persists the proposal.
pub fn handle_create_proposal(
    state: &mut RoundState,
    env: &BlockInfo,
    info: &MessageInfo,
    title: String,
    description: String,
    metadata: Option<Vec<u8>>,
    fund_address: Vec<u8>,
) -> (r: Result<HandleResponse, ContractError>)
    requires
        old(state).wf(),
        old(state).proposals@.len() < u64::MAX,
    ensures
        final(state).wf(),
        spec_create_proposal(
            *old(state),
            *final(state),
            *env,
            *info,
            title,
            description,
            metadata,
            fund_address,
            r,
        ),
{
    if !check_whitelist(&state.config.create_proposal_whitelist, &info.sender) {
        return Err(ContractError::Unauthorized);
    }
    if state.config.proposal_period.is_expired(env) {
        return Err(ContractError::ProposalPeriodExpired);
    }
    let id = state.proposal_seq + 1;
    state.proposal_seq = id;
    let title_attr = title.clone();
    state.proposals.push(
        Proposal { id, title, description, metadata, fund_address, collected_funds: 0 },
    );
    proof {
        assert forall|j: int|
            0 <= j < state.votes@.len() implies (#[trigger] state.votes@[j]).proposal_id != id by {}
        lemma_votes_for_absent(state.votes@, id);
    }
    let data = u64_to_be_bytes(id);
    let mut attributes: Vec<Attribute> = Vec::new();
    attributes.push(
        Attribute {
            key: "action".to_string(),
            value: AttributeValue::Text("create_proposal".to_string()),
        },
    );
    attributes.push(Attribute { key: "title".to_string(), value: AttributeValue::Text(title_attr) });
    attributes.push(
        Attribute { key: "proposal_id".to_string(), value: AttributeValue::Uint(id as u128) },
    );
    Ok(HandleResponse { messages: Vec::new(), attributes, data: Some(data) })
}

/// Exactly one coin of the round's budget denomination came attached.
pub open spec fn spec_funds_valid(sent: Seq<Coin>, denom: Seq<u8>) -> bool {
    sent.len() == 1 && sent[0].denom@ == denom
}

/// The one step VoteProposal takes on success: the vote is appended to the
/// ledger, the voted proposal's collected funds grow by the vote's amount,
/// and nothing else moves.
pub open spec fn spec_voted(
    old_s: RoundState,
    new_s: RoundState,
    pid: u64,
    voter: Seq<u8>,
    amount: u128,
) -> bool {
    let idx = pid - 1;
    let op = old_s.proposals@[idx];
    &&& new_s.config == old_s.config
    &&& new_s.proposal_seq == old_s.proposal_seq
    &&& new_s.proposals@ == old_s.proposals@.update(
        idx,
        Proposal { collected_funds: (op.collected_funds + amount) as u128, ..op },
    )
    &&& new_s.votes@.len() == old_s.votes@.len() + 1
    &&& new_s.votes@.subrange(0, old_s.votes@.len() as int) == old_s.votes@
    &&& new_s.votes@.last().proposal_id == pid
    &&& new_s.votes@.last().voter@ == voter
    &&& new_s.votes@.last().fund.denom@ == old_s.config.budget.denom@
    &&& new_s.votes@.last().fund.amount == amount
}

/// VoteProposal's successful response: no payments, no payload, and the four
/// event attributes, the last carrying the proposal's new collected total.
pub open spec fn spec_vote_response(
    resp: HandleResponse,
    pid: u64,
    voter: Seq<u8>,
    collected: u128,
) -> bool {
    &&& resp.messages@.len() == 0
    &&& resp.data is None
    &&& resp.attributes@.len() == 4
    &&& spec_attr_text(resp.attributes@[0], "action"@, "vote_proposal"@)
    &&& spec_attr_uint(resp.attributes@[1], "proposal_key"@, pid as u128)
    &&& spec_attr_bytes(resp.attributes@[2], "voter"@, voter)
    &&& spec_attr_uint(resp.attributes@[3], "collected_fund"@, collected)
}

/// The complete behaviour of VoteProposal, checks in order: whitelist, voting
/// window, attached funds, the proposal's existence, one vote per voter per
/// proposal (a second vote always fails, whatever its amount), and the
/// arithmetic width. Success is owed when all pass; every failure leaves the
/// state untouched.
pub open spec fn spec_vote_proposal(
    old_s: RoundState,
    new_s: RoundState,
    env: BlockInfo,
    info: MessageInfo,
    pid: u64,
    r: Result<HandleResponse, ContractError>,
) -> bool {
    let cfg = old_s.config;
    let authorized = spec_authorized(cfg.vote_proposal_whitelist, info.sender@);
    let window_open = !spec_is_expired(cfg.voting_period, env);
    let sent = info.sent_funds@;
    let found = 1 <= pid && pid as int <= old_s.proposals@.len();
    let dup = spec_has_vote(old_s.votes@, pid, info.sender@);
    let fits = old_s.proposals@[pid - 1].collected_funds + sent[0].amount <= u128::MAX;
    &&& !authorized ==> r == Err::<HandleResponse, ContractError>(ContractError::Unauthorized)
        && new_s == old_s
    &&& authorized && !window_open ==> r == Err::<HandleResponse, ContractError>(
        ContractError::VotingPeriodExpired,
    ) && new_s == old_s
    &&& authorized && window_open && sent.len() == 0 ==> r == Err::<HandleResponse, ContractError>(
        ContractError::ExpectedCoinNotSent,
    ) && new_s == old_s
    &&& authorized && window_open && sent.len() > 1 ==> r == Err::<HandleResponse, ContractError>(
        ContractError::MultipleCoinsSent,
    ) && new_s == old_s
    &&& authorized && window_open && sent.len() == 1 && sent[0].denom@ != cfg.budget.denom@ ==> ((
    r matches Err(e) && e matches ContractError::WrongFundCoin { expected, got } && expected@
        == cfg.budget.denom@ && got@ == sent[0].denom@) && new_s == old_s)
    &&& authorized && window_open && spec_funds_valid(sent, cfg.budget.denom@) ==> {
        &&& !found ==> r == Err::<HandleResponse, ContractError>(ContractError::ProposalNotFound)
            && new_s == old_s
        &&& found && dup ==> r == Err::<HandleResponse, ContractError>(
            ContractError::AddressAlreadyVotedProject,
        ) && new_s == old_s
        &&& found && !dup && !fits ==> r == Err::<HandleResponse, ContractError>(
            ContractError::Overflow,
        ) && new_s == old_s
        &&& found && !dup && fits ==> (r matches Ok(resp) && spec_voted(
            old_s,
            new_s,
            pid,
            info.sender@,
            sent[0].amount,
        ) && spec_vote_response(
            resp,
            pid,
            info.sender@,
            (old_s.proposals@[pid - 1].collected_funds + sent[0].amount) as u128,
        ))
    }
    &&& r is Ok <==> (authorized && window_open && spec_funds_valid(sent, cfg.budget.denom@)
        && found && !dup && fits)
}

/// VoteProposal: admits the sender, checks the voting window and the
/// attached coin, rejects a second vote on the same proposal, then persists
/// the vote and grows the proposal's collected funds atomically with it.
pub fn handle_vote_proposal(
    state: &mut RoundState,
    env: &BlockInfo,
    info: &MessageInfo,
    proposal_id: u64,
) -> (r: Result<HandleResponse, ContractError>)
    requires
        old(state).wf(),
    ensures
        final(state).wf(),
        spec_vote_proposal(*old(state), *final(state), *env, *info, proposal_id, r),
{
    if !check_whitelist(&state.config.vote_proposal_whitelist, &info.sender) {
        return Err(ContractError::Unauthorized);
    }
    if state.config.voting_period.is_expired(env) {
        return Err(ContractError::VotingPeriodExpired);
    }
    let fund = match extract_budget_coin(&info.sent_funds, &state.config.budget.denom) {
        Ok(c) => c,
        Err(e) => {
            return Err(e);
        },
    };
    let n = state.proposals.len();
    if !(proposal_id >= 1 && proposal_id <= n as u64) {
        return Err(ContractError::ProposalNotFound);
    }
    let idx: usize = (proposal_id - 1) as usize;
    proof {
        assert(idx as int == proposal_id - 1);
    }
    if has_vote(&state.votes, proposal_id, &info.sender) {
        return Err(ContractError::AddressAlreadyVotedProject);
    }
    let amount = fund.amount;
    let new_collected = match state.proposals[idx].collected_funds.checked_add(amount) {
        Some(c) => c,
        None => {
            return Err(ContractError::Overflow);
        },
    };
    let mut p = state.proposals.remove(idx);
    p.collected_funds = new_collected;
    state.proposals.insert(idx, p);
    let vote = Vote { proposal_id, voter: clone_bytes(&info.sender), fund };
    state.votes.push(vote);
    proof {
        assert(state.proposals@ =~= old(state).proposals@.update(
            idx as int,
            Proposal {
                collected_funds: new_collected,
                ..old(state).proposals@[idx as int]
            },
        ));
        assert(state.votes@.subrange(0, old(state).votes@.len() as int) =~= old(state).votes@);
        let v = state.votes@.last();
        assert forall|i: int|
            0 <= i < state.proposals@.len() implies (#[trigger] state.proposals@[i]).collected_funds
            as int == sum_amounts(votes_for(state.votes@, (i + 1) as u64)) by {
            lemma_votes_for_push(old(state).votes@, v, (i + 1) as u64);
            if i == idx as int {
                lemma_sum_amounts_push(votes_for(old(state).votes@, proposal_id), amount);
            }
        }
    }
    let mut attributes: Vec<Attribute> = Vec::new();
    attributes.push(
        Attribute {
            key: "action".to_string(),
            value: AttributeValue::Text("vote_proposal".to_string()),
        },
    );
    attributes.push(
        Attribute {
            key: "proposal_key".to_string(),
            value: AttributeValue::Uint(proposal_id as u128),
        },
    );
    attributes.push(
        Attribute {
            key: "voter".to_string(),
            value: AttributeValue::Bytes(clone_bytes(&info.sender)),
        },
    );
    attributes.push(
        Attribute {
            key: "collected_fund".to_string(),
            value: AttributeValue::Uint(new_collected),
        },
    );
    Ok(HandleResponse { messages: Vec::new(), attributes, data: None })
}

/// Two proposals carrying the same values.
pub open spec fn spec_proposal_view(a: Proposal, b: Proposal) -> bool {
    &&& a.id == b.id
    &&& a.title@ == b.title@
    &&& a.description@ == b.description@
    &&& match (a.metadata, b.metadata) {
        (None, None) => true,
        (Some(x), Some(y)) => x@ == y@,
        _ => false,
    }
    &&& a.fund_address@ == b.fund_address@
    &&& a.collected_funds == b.collected_funds
}

/// An owned copy of a proposal, equal to the original value for value.
fn clone_proposal(p: &Proposal) -> (r: Proposal)
    ensures
        spec_proposal_view(r, *p),
{
    let metadata = match &p.metadata {
        Some(m) => Some(clone_bytes(m)),
        None => None,
    };
    Proposal {
        id: p.id,
        title: p.title.clone(),
        description: p.description.clone(),
        metadata,
        fund_address: clone_bytes(&p.fund_address),
        collected_funds: p.collected_funds,
    }
}

/// The registry lookup: the proposal with id `id`, or `ProposalNotFound`.
pub fn query_proposal_id(state: &RoundState, id: u64) -> (r: Result<Proposal, ContractError>)
    requires
        state.wf(),
    ensures
        1 <= id && id as int <= state.proposals@.len() ==> (r matches Ok(p)
            && spec_proposal_view(p, state.proposals@[id - 1])),
        !(1 <= id && id as int <= state.proposals@.len()) ==> r == Err::<Proposal, ContractError>(
            ContractError::ProposalNotFound,
        ),
{
    let n = state.proposals.len();
    if id >= 1 && id <= n as u64 {
        let idx: usize = (id - 1) as usize;
        proof {
            assert(idx as int == id - 1);
        }
        Ok(clone_proposal(&state.proposals[idx]))
    } else {
        Err(ContractError::ProposalNotFound)
    }
}

/// The registry enumeration: every proposal, ascending by id.
pub fn query_all_proposals(state: &RoundState) -> (r: AllProposalsResponse)
    requires
        state.wf(),
    ensures
        r.proposals@.len() == state.proposals@.len(),
        forall|i: int|
            0 <= i < state.proposals@.len() ==> spec_proposal_view(
                #[trigger] r.proposals@[i],
                state.proposals@[i],
            ),
{
    let mut out: Vec<Proposal> = Vec::new();
    let mut i: usize = 0;
    while i < state.proposals.len()
        invariant
            i <= state.proposals@.len(),
            out@.len() == i,
            forall|j: int|
                0 <= j < i ==> spec_proposal_view(#[trigger] out@[j], state.proposals@[j]),
        decreases state.proposals@.len() - i,
    {
        out.push(clone_proposal(&state.proposals[i]));
        i = i + 1;
    }
    AllProposalsResponse { proposals: out }
}

/// The per-proposal contribution lists of a round, ascending by proposal id:
/// what the grant aggregator feeds the matching engine.
pub open spec fn round_fundss(s: RoundState) -> Seq<Seq<u128>> {
    Seq::new(s.proposals@.len() as nat, |i: int| votes_for(s.votes@, (i + 1) as u64))
}

/// The matching engine itself overflows on this round's data.
pub open spec fn spec_clr_engine_overflows(s: RoundState) -> bool {
    let fundss = round_fundss(s);
    ||| liberal_total(fundss) > u128::MAX
    ||| exists|i: int|
        0 <= i < fundss.len() && liberal_match(#[trigger] fundss[i]) * s.config.budget.amount
            > u128::MAX
}

/// Some proposal's final payout (match plus collected votes) overflows.
pub open spec fn spec_payment_overflows(s: RoundState) -> bool {
    let fundss = round_fundss(s);
    let total = liberal_total(fundss);
    let b = s.config.budget.amount as int;
    exists|i: int|
        0 <= i < fundss.len() && scaled_match(liberal_match(#[trigger] fundss[i]), total, b)
            + s.proposals@[i].collected_funds > u128::MAX
}

/// The sum of the amounts of a list of payment instructions.
pub open spec fn sum_payments(msgs: Seq<Payment>) -> int
    decreases msgs.len(),
{
    if msgs.len() == 0 {
        0
    } else {
        sum_payments(msgs.drop_last()) + msgs.last().amount.amount
    }
}

/// The sum of the collected funds of a list of proposals.
pub open spec fn sum_collected(props: Seq<Proposal>) -> int
    decreases props.len(),
{
    if props.len() == 0 {
        0
    } else {
        sum_collected(props.drop_last()) + props.last().collected_funds
    }
}

/// Appending a payment adds its amount to the sum.
proof fn lemma_sum_payments_push(msgs: Seq<Payment>, p: Payment)
    ensures
        sum_payments(msgs.push(p)) == sum_payments(msgs) + p.amount.amount,
{
    assert(msgs.push(p).drop_last() =~= msgs);
}

/// Payments that each carry one proposal's scaled match plus its collected
/// funds sum to the scaled sum plus the collected total.
proof fn lemma_payment_sum_split(
    msgs: Seq<Payment>,
    fundss: Seq<Seq<u128>>,
    props: Seq<Proposal>,
    total: int,
    b: int,
)
    requires
        msgs.len() == fundss.len(),
        msgs.len() == props.len(),
        forall|i: int|
            0 <= i < msgs.len() ==> (#[trigger] msgs[i]).amount.amount as int == scaled_match(
                liberal_match(fundss[i]),
                total,
                b,
            ) + props[i].collected_funds,
    ensures
        sum_payments(msgs) == scaled_sum(fundss, total, b) + sum_collected(props),
    decreases msgs.len(),
{
    if msgs.len() > 0 {
        assert(forall|i: int|
            0 <= i < msgs.drop_last().len() ==> (#[trigger] msgs.drop_last()[i]) == msgs[i]);
        assert(forall|i: int|
            0 <= i < props.drop_last().len() ==> (#[trigger] props.drop_last()[i]) == props[i]);
        assert(forall|i: int|
            0 <= i < fundss.drop_last().len() ==> (#[trigger] fundss.drop_last()[i]) == fundss[i]);
        lemma_payment_sum_split(
            msgs.drop_last(),
            fundss.drop_last(),
            props.drop_last(),
            total,
            b,
        );
    }
}

/// TriggerDistribution's successful response: one payment per proposal in id
/// order (its scaled match plus its collected votes, in the budget
/// denomination), one leftover payment to the configured recipient last, and
/// the matching pool conserved exactly: the payments together hand out the
/// whole budget plus every collected vote, nothing more, nothing less.
pub open spec fn spec_distribution(s: RoundState, resp: HandleResponse) -> bool {
    let fundss = round_fundss(s);
    let total = liberal_total(fundss);
    let b = s.config.budget.amount;
    let n = s.proposals@.len() as int;
    &&& resp.messages@.len() == n + 1
    &&& forall|i: int|
        0 <= i < n ==> {
            let m = #[trigger] resp.messages@[i];
            &&& m.to_address@ == s.proposals@[i].fund_address@
            &&& m.amount.denom@ == s.config.budget.denom@
            &&& m.amount.amount as int == scaled_match(liberal_match(fundss[i]), total, b as int)
                + s.proposals@[i].collected_funds
        }
    &&& resp.messages@[n].to_address@ == s.config.leftover_addr@
    &&& resp.messages@[n].amount.denom@ == s.config.budget.denom@
    &&& resp.messages@[n].amount.amount as int == b - scaled_sum(fundss, total, b as int)
    &&& sum_payments(resp.messages@) == b + sum_collected(s.proposals@)
    &&& resp.attributes@.len() == 1
    &&& spec_attr_text(resp.attributes@[0], "action"@, "trigger_distribution"@)
    &&& resp.data is None
}

/// The complete behaviour of TriggerDistribution: only the admin may call
/// it, only once the voting window has expired, and then it is owed success
/// unless the round's numbers overflow the arithmetic width or nothing
/// supports any proposal. It never mutates the round.
pub open spec fn spec_trigger_distribution(
    s: RoundState,
    env: BlockInfo,
    info: MessageInfo,
    r: Result<HandleResponse, ContractError>,
) -> bool {
    let is_admin = info.sender@ == s.config.admin@;
    let closed = spec_is_expired(s.config.voting_period, env);
    let total = liberal_total(round_fundss(s));
    &&& !is_admin ==> r == Err::<HandleResponse, ContractError>(ContractError::Unauthorized)
    &&& is_admin && !closed ==> r == Err::<HandleResponse, ContractError>(
        ContractError::VotingPeriodNotExpired,
    )
    &&& is_admin && closed ==> {
        &&& spec_clr_engine_overflows(s) ==> r == Err::<HandleResponse, ContractError>(
            ContractError::Overflow,
        )
        &&& !spec_clr_engine_overflows(s) && total == 0 ==> r == Err::<
            HandleResponse,
            ContractError,
        >(ContractError::CLRConstrainRequired)
        &&& !spec_clr_engine_overflows(s) && total > 0 && spec_payment_overflows(s) ==> r == Err::<
            HandleResponse,
            ContractError,
        >(ContractError::Overflow)
        &&& !spec_clr_engine_overflows(s) && total > 0 && !spec_payment_overflows(s) ==> (
        r matches Ok(resp) && spec_distribution(s, resp))
    }
    &&& r is Ok <==> (is_admin && closed && !spec_clr_engine_overflows(s) && total > 0
        && !spec_payment_overflows(s))
}

/// TriggerDistribution: checks the caller and the clock, aggregates every
/// proposal's votes into grants, runs the configured matching algorithm, and
/// emits the payment plan. Reads the round, never writes it.
pub fn handle_trigger_distribution(state: &RoundState, env: &BlockInfo, info: &MessageInfo) -> (r:
    Result<HandleResponse, ContractError>)
    requires
        state.wf(),
    ensures
        spec_trigger_distribution(*state, *env, *info, r),
{
    if !bytes_eq(&info.sender, &state.config.admin) {
        return Err(ContractError::Unauthorized);
    }
    if !state.config.voting_period.is_expired(env) {
        return Err(ContractError::VotingPeriodNotExpired);
    }
    let ghost fundss = round_fundss(*state);
    let mut grants: Vec<RawGrant> = Vec::new();
    let mut i: usize = 0;
    while i < state.proposals.len()
        invariant
            state.wf(),
            i <= state.proposals@.len(),
            grants@.len() == i,
            fundss == round_fundss(*state),
            forall|j: int|
                0 <= j < i ==> {
                    let g = #[trigger] grants@[j];
                    &&& g.addr@ == state.proposals@[j].fund_address@
                    &&& g.funds@ == votes_for(state.votes@, (j + 1) as u64)
                    &&& g.collected_vote_funds == state.proposals@[j].collected_funds
                },
        decreases state.proposals@.len() - i,
    {
        let p = &state.proposals[i];
        let funds = list_votes_for(&state.votes, p.id);
        grants.push(
            RawGrant {
                addr: clone_bytes(&p.fund_address),
                funds,
                collected_vote_funds: p.collected_funds,
            },
        );
        i = i + 1;
    }
    proof {
        assert forall|j: int| 0 <= j < grants@.len() implies #[trigger] fundss_of(grants@)[j]
            == fundss[j] by {
            assert(fundss_of(grants@)[j] == grants@[j].funds@);
            assert(fundss[j] == votes_for(state.votes@, (j + 1) as u64));
        }
        assert(fundss_of(grants@) =~= fundss);
    }
    let ghost grants_view = grants@;
    let budget_amount = state.config.budget.amount;
    let res = match &state.config.algorithm {
        QuadraticFundingAlgorithm::CapitalConstrainedLiberalRadicalism { .. } => calculate_clr(
            grants,
            Some(budget_amount),
        ),
    };
    proof {
        assert forall|j: int| 0 <= j < grants_view.len() implies (#[trigger] grants_view[j]).funds@
            == fundss[j] by {
            assert(fundss_of(grants_view)[j] == grants_view[j].funds@);
        }
        assert(spec_clr_engine_overflows(*state) == clr_overflows(grants_view, budget_amount));
    }
    let (matched, leftover) = match res {
        Ok(pair) => pair,
        Err(e) => {
            return Err(e);
        },
    };
    let ghost total = liberal_total(fundss);
    let mut messages: Vec<Payment> = Vec::new();
    let mut k: usize = 0;
    while k < matched.len()
        invariant
            state.wf(),
            k <= matched@.len(),
            messages@.len() == k,
            fundss == round_fundss(*state),
            total == liberal_total(fundss),
            total > 0,
            matched@.len() == state.proposals@.len(),
            info.sender@ == state.config.admin@,
            spec_is_expired(state.config.voting_period, *env),
            !spec_clr_engine_overflows(*state),
            forall|j: int|
                0 <= j < matched@.len() ==> {
                    let m = #[trigger] matched@[j];
                    &&& m.addr@ == state.proposals@[j].fund_address@
                    &&& m.grant as int == scaled_match(
                        liberal_match(fundss[j]),
                        total,
                        budget_amount as int,
                    )
                    &&& m.collected_vote_funds == state.proposals@[j].collected_funds
                },
            budget_amount == state.config.budget.amount,
            forall|j: int|
                0 <= j < k ==> {
                    let m = #[trigger] messages@[j];
                    &&& m.to_address@ == state.proposals@[j].fund_address@
                    &&& m.amount.denom@ == state.config.budget.denom@
                    &&& m.amount.amount as int == scaled_match(
                        liberal_match(fundss[j]),
                        total,
                        budget_amount as int,
                    ) + state.proposals@[j].collected_funds
                },
        decreases matched@.len() - k,
    {
        let m = &matched[k];
        let amt = match m.grant.checked_add(m.collected_vote_funds) {
            Some(a) => a,
            None => {
                return Err(ContractError::Overflow);
            },
        };
        messages.push(
            Payment {
                to_address: clone_bytes(&m.addr),
                amount: Coin { denom: clone_bytes(&state.config.budget.denom), amount: amt },
            },
        );
        k = k + 1;
    }
    proof {
        assert forall|j: int| 0 <= j < fundss.len() implies !(scaled_match(
            liberal_match(#[trigger] fundss[j]),
            total,
            budget_amount as int,
        ) + state.proposals@[j].collected_funds > u128::MAX) by {
            assert(messages@[j].amount.amount as int == scaled_match(
                liberal_match(fundss[j]),
                total,
                budget_amount as int,
            ) + state.proposals@[j].collected_funds);
        }
        assert(!spec_payment_overflows(*state));
        crate::matching::lemma_sum_grants_is_scaled_sum(
            matched@,
            fundss,
            total,
            budget_amount as int,
        );
        lemma_payment_sum_split(
            messages@,
            fundss,
            state.proposals@,
            total,
            budget_amount as int,
        );
    }
    let ghost payments_so_far = messages@;
    messages.push(
        Payment {
            to_address: clone_bytes(&state.config.leftover_addr),
            amount: Coin { denom: clone_bytes(&state.config.budget.denom), amount: leftover },
        },
    );
    proof {
        lemma_sum_payments_push(payments_so_far, messages@.last());
    }
    let mut attributes: Vec<Attribute> = Vec::new();
    attributes.push(
        Attribute {
            key: "action".to_string(),
            value: AttributeValue::Text("trigger_distribution".to_string()),
        },
    );
    Ok(HandleResponse { messages, attributes, data: None })
}

/// The operation dispatcher: hands each request to its handler; the
/// per-operation contracts carry over unchanged, and TriggerDistribution
/// leaves the round as it was.
pub fn handle(state: &mut RoundState, env: &BlockInfo, info: &MessageInfo, msg: HandleMsg) -> (r:
    Result<HandleResponse, ContractError>)
    requires
        old(state).wf(),
        old(state).proposals@.len() < u64::MAX,
    ensures
        final(state).wf(),
        match msg {
            HandleMsg::CreateProposal { title, description, metadata, fund_address } => spec_create_proposal(
                *old(state),
                *final(state),
                *env,
                *info,
                title,
                description,
                metadata,
                fund_address,
                r,
            ),
            HandleMsg::VoteProposal { proposal_id } => spec_vote_proposal(
                *old(state),
                *final(state),
                *env,
                *info,
                proposal_id,
                r,
            ),
            HandleMsg::TriggerDistribution => spec_trigger_distribution(*old(state), *env, *info, r)
                && *final(state) == *old(state),
        },
{
    match msg {
        HandleMsg::CreateProposal { title, description, metadata, fund_address } => {
            handle_create_proposal(state, env, info, title, description, metadata, fund_address)
        },
        HandleMsg::VoteProposal { proposal_id } => {
            handle_vote_proposal(state, env, info, proposal_id)
        },
        HandleMsg::TriggerDistribution => handle_trigger_distribution(state, env, info),
    }
}

/// The query dispatcher.
pub fn query(state: &RoundState, msg: QueryMsg) -> (r: Result<QueryResponse, ContractError>)
    requires
        state.wf(),
    ensures
        match msg {
            QueryMsg::ProposalByID { id } => {
                &&& 1 <= id && id as int <= state.proposals@.len() ==> (r matches Ok(q)
                    && q matches QueryResponse::Proposal(p) && spec_proposal_view(
                    p,
                    state.proposals@[id - 1],
                ))
                &&& !(1 <= id && id as int <= state.proposals@.len()) ==> r == Err::<
                    QueryResponse,
                    ContractError,
                >(ContractError::ProposalNotFound)
            },
            QueryMsg::AllProposals => r matches Ok(q) && q matches QueryResponse::AllProposals(a)
                && a.proposals@.len() == state.proposals@.len() && forall|i: int|
                0 <= i < state.proposals@.len() ==> spec_proposal_view(
                    #[trigger] a.proposals@[i],
                    state.proposals@[i],
                ),
        },
{
    match msg {
        QueryMsg::ProposalByID { id } => {
            match query_proposal_id(state, id) {
                Ok(p) => Ok(QueryResponse::Proposal(p)),
                Err(e) => Err(e),
            }
        },
        QueryMsg::AllProposals => Ok(QueryResponse::AllProposals(query_all_proposals(state))),
    }
}

} // verus!
