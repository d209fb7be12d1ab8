use quadratic_funding::contract::{handle, init, query_all_proposals, query_proposal_id};
use quadratic_funding::state::proposal_seq;
use quadratic_funding::error::ContractError;
use quadratic_funding::matching::QuadraticFundingAlgorithm;
use quadratic_funding::msg::{AllProposalsResponse, HandleMsg, InitMsg, Payment};
use quadratic_funding::state::{BlockInfo, Coin, Config, Expiration, MessageInfo, Proposal, RoundState};

fn addr(s: &str) -> Vec<u8> {
    s.as_bytes().to_vec()
}

fn coin(amount: u128, denom: &str) -> Coin {
    Coin { denom: addr(denom), amount }
}

fn mock_env() -> BlockInfo {
    BlockInfo { height: 12345, time: 1571797419 }
}

fn mock_info(sender: &str, funds: &[Coin]) -> MessageInfo {
    MessageInfo { sender: addr(sender), sent_funds: funds.to_vec() }
}

fn clr() -> QuadraticFundingAlgorithm {
    QuadraticFundingAlgorithm::CapitalConstrainedLiberalRadicalism { parameter: "".to_string() }
}

fn create_proposal_msg(title: &str, fund_address: &str) -> HandleMsg {
    HandleMsg::CreateProposal {
        title: title.to_string(),
        description: "test".to_string(),
        metadata: Some(b"test".to_vec()),
        fund_address: addr(fund_address),
    }
}

#[test]
fn create_proposal() {
    let mut env = mock_env();
    let info = mock_info("addr", &[coin(1000, "ucosm")]);

    let init_msg = InitMsg {
        admin: addr("addr"),
        leftover_addr: addr("addr"),
        create_proposal_whitelist: None,
        vote_proposal_whitelist: None,
        voting_period: Expiration::AtHeight(env.height + 15),
        proposal_period: Expiration::AtHeight(env.height + 10),
        budget_denom: addr("ucosm"),
        algorithm: clr(),
    };

    let mut state = init(&env, &info, init_msg.clone()).unwrap();
    let msg = HandleMsg::CreateProposal {
        title: "test".to_string(),
        description: "test".to_string(),
        metadata: Some(b"test".to_vec()),
        fund_address: addr("fund_address"),
    };

    let res = handle(&mut state, &env, &info, msg.clone());
    // success case
    match res {
        Ok(resp) => assert_eq!(resp.data.unwrap(), 1_u64.to_be_bytes().to_vec()),
        e => panic!("unexpected error, got {:?}", e.unwrap_err()),
    }

    // proposal period expired
    env.height = env.height + 1000;
    let res = handle(&mut state, &env, &info, msg.clone());
    match res {
        Ok(_) => panic!("expected error"),
        Err(ContractError::ProposalPeriodExpired) => {}
        e => panic!("unexpected error, got {:?}", e.unwrap_err()),
    }

    // unauthorised
    let env = mock_env();
    let info = mock_info("true", &[coin(1000, "ucosm")]);
    let init_msg = InitMsg {
        admin: addr("person"),
        leftover_addr: addr("addr"),
        create_proposal_whitelist: Some(vec![addr("false")]),
        vote_proposal_whitelist: None,
        voting_period: Expiration::Never,
        proposal_period: Expiration::Never,
        budget_denom: addr("ucosm"),
        algorithm: clr(),
    };
    let mut state = init(&env, &info, init_msg).unwrap();
    let res = handle(&mut state, &env, &info, msg.clone());
    match res {
        Ok(_) => panic!("expected error"),
        Err(ContractError::Unauthorized) => {}
        e => panic!("unexpected error, got {:?}", e.unwrap_err()),
    }
    // the refused call did not advance the id sequence
    assert_eq!(proposal_seq(&state), 0);
}

#[test]
fn vote_proposal() {
    let mut env = mock_env();
    let info = mock_info("addr", &[coin(1000, "ucosm")]);

    let mut init_msg = InitMsg {
        admin: addr("addr"),
        leftover_addr: addr("addr"),
        create_proposal_whitelist: None,
        vote_proposal_whitelist: None,
        voting_period: Expiration::AtHeight(env.height + 15),
        proposal_period: Expiration::AtHeight(env.height + 10),
        budget_denom: addr("ucosm"),
        algorithm: clr(),
    };
    let mut state = init(&env, &info, init_msg.clone()).unwrap();

    let create_msg = create_proposal_msg("test", "fund_address");
    let res = handle(&mut state, &env, &info, create_msg.clone());
    match res {
        Ok(resp) => assert_eq!(resp.data.unwrap(), 1_u64.to_be_bytes().to_vec()),
        e => panic!("unexpected error, got {:?}", e.unwrap_err()),
    }

    let msg = HandleMsg::VoteProposal { proposal_id: 1 };
    let res = handle(&mut state, &env, &info, msg.clone());
    // success case
    match res {
        Ok(_) => {}
        e => panic!("unexpected error, got {:?}", e.unwrap_err()),
    }

    // double vote prevention
    let res = handle(&mut state, &env, &info, msg.clone());
    match res {
        Ok(_) => panic!("expected error"),
        Err(ContractError::AddressAlreadyVotedProject) => {}
        e => panic!("unexpected error, got {:?}", e.unwrap_err()),
    }

    // whitelist check
    init_msg.vote_proposal_whitelist = Some(vec![addr("admin")]);
    let mut state = init(&env, &info, init_msg.clone()).unwrap();
    let res = handle(&mut state, &env, &info, msg.clone());
    match res {
        Ok(_) => panic!("expected error"),
        Err(ContractError::Unauthorized) => {}
        e => panic!("unexpected error, got {:?}", e.unwrap_err()),
    }

    // voting period expired
    init_msg.vote_proposal_whitelist = None;
    let mut state = init(&env, &info, init_msg.clone()).unwrap();
    env.height = env.height + 15;
    let res = handle(&mut state, &env, &info, msg.clone());
    match res {
        Ok(_) => panic!("expected error"),
        Err(ContractError::VotingPeriodExpired) => {}
        e => panic!("unexpected error, got {:?}", e.unwrap_err()),
    }
}

#[test]
fn trigger_distribution() {
    let env = mock_env();
    let budget = 550000u128;
    let info = mock_info("admin", &[coin(budget, "ucosm")]);

    let init_msg = InitMsg {
        admin: addr("admin"),
        leftover_addr: addr("addr"),
        create_proposal_whitelist: None,
        vote_proposal_whitelist: None,
        voting_period: Expiration::AtHeight(env.height + 15),
        proposal_period: Expiration::AtHeight(env.height + 10),
        budget_denom: addr("ucosm"),
        algorithm: clr(),
    };
    let mut state = init(&env, &info, init_msg).unwrap();

    // insert proposals
    for (i, title, fund) in [
        (1u64, "proposal 1", "fund_address1"),
        (2u64, "proposal 2", "fund_address2"),
        (3u64, "proposal 3", "fund_address3"),
        (4u64, "proposal 4", "fund_address4"),
    ] {
        let res = handle(&mut state, &env, &info, create_proposal_msg(title, fund));
        match res {
            Ok(resp) => assert_eq!(resp.data.unwrap(), i.to_be_bytes().to_vec()),
            e => panic!("unexpected error, got {:?}", e.unwrap_err()),
        }
    }

    // insert votes
    let votes: &[(u64, &str, u128)] = &[
        (1, "address1", 1200),
        (1, "address2", 44999),
        (1, "address3", 33),
        (2, "address4", 30000),
        (2, "address5", 58999),
        (3, "address6", 230000),
        (3, "address7", 100),
        (4, "address8", 100000),
        (4, "address9", 5),
    ];
    let mut collected_total = 0u128;
    for (pid, voter, amount) in votes {
        let info = mock_info(voter, &[coin(*amount, "ucosm")]);
        let msg = HandleMsg::VoteProposal { proposal_id: *pid };
        let res = handle(&mut state, &env, &info, msg);
        match res {
            Ok(_) => {}
            e => panic!("unexpected error, got {:?}", e.unwrap_err()),
        }
        collected_total += amount;
    }

    let info = mock_info("admin", &[]);
    let mut env = mock_env();
    env.height += 1000;
    let res = handle(&mut state, &env, &info, HandleMsg::TriggerDistribution);

    let expected_msgs: Vec<Payment> = vec![
        Payment { to_address: addr("fund_address1"), amount: coin(106444u128, "ucosm") },
        Payment { to_address: addr("fund_address2"), amount: coin(253601u128, "ucosm") },
        Payment { to_address: addr("fund_address3"), amount: coin(458637u128, "ucosm") },
        Payment { to_address: addr("fund_address4"), amount: coin(196653u128, "ucosm") },
        // leftover payment
        Payment { to_address: addr("addr"), amount: coin(1u128, "ucosm") },
    ];
    let resp = match res {
        Ok(resp) => resp,
        e => panic!("unexpected error, got {:?}", e.unwrap_err()),
    };
    assert_eq!(expected_msgs, resp.messages);

    // check total cash in and out
    let distributed: u128 = resp.messages.iter().map(|m| m.amount.amount).sum();
    assert_eq!(collected_total + budget, distributed);
}

#[test]
fn trigger_distribution_not_expired() {
    let env = mock_env();
    let info = mock_info("admin", &[coin(550000, "ucosm")]);
    let init_msg = InitMsg {
        admin: addr("admin"),
        leftover_addr: addr("addr"),
        create_proposal_whitelist: None,
        vote_proposal_whitelist: None,
        voting_period: Expiration::AtHeight(env.height + 15),
        proposal_period: Expiration::AtHeight(env.height + 10),
        budget_denom: addr("ucosm"),
        algorithm: clr(),
    };
    let mut state = init(&env, &info, init_msg).unwrap();
    handle(&mut state, &env, &info, create_proposal_msg("p", "f")).unwrap();
    let voter = mock_info("address1", &[coin(500, "ucosm")]);
    handle(&mut state, &env, &voter, HandleMsg::VoteProposal { proposal_id: 1 }).unwrap();

    let before = query_all_proposals(&state);
    // the voting window is still open: distribution must be refused and the
    // stored proposals and votes must be untouched
    let res = handle(&mut state, &env, &info, HandleMsg::TriggerDistribution);
    match res {
        Ok(_) => panic!("expected error"),
        Err(ContractError::VotingPeriodNotExpired) => {}
        e => panic!("unexpected error, got {:?}", e.unwrap_err()),
    }
    assert_eq!(before, query_all_proposals(&state));
    assert_eq!(proposal_seq(&state), 1);
}

#[test]
fn trigger_distribution_unauthorized() {
    let mut env = mock_env();
    let info = mock_info("admin", &[coin(1000, "ucosm")]);
    let init_msg = InitMsg {
        admin: addr("admin"),
        leftover_addr: addr("addr"),
        create_proposal_whitelist: None,
        vote_proposal_whitelist: None,
        voting_period: Expiration::AtHeight(env.height + 15),
        proposal_period: Expiration::AtHeight(env.height + 10),
        budget_denom: addr("ucosm"),
        algorithm: clr(),
    };
    let mut state = init(&env, &info, init_msg).unwrap();
    env.height += 1000;
    let other = mock_info("intruder", &[]);
    let res = handle(&mut state, &env, &other, HandleMsg::TriggerDistribution);
    assert_eq!(res.unwrap_err(), ContractError::Unauthorized);
}

#[test]
fn vote_wrong_denom() {
    let env = mock_env();
    let info = mock_info("addr", &[coin(1000, "ucosm")]);
    let init_msg = InitMsg {
        admin: addr("addr"),
        leftover_addr: addr("addr"),
        create_proposal_whitelist: None,
        vote_proposal_whitelist: None,
        voting_period: Expiration::AtHeight(env.height + 15),
        proposal_period: Expiration::AtHeight(env.height + 10),
        budget_denom: addr("ucosm"),
        algorithm: clr(),
    };
    let mut state = init(&env, &info, init_msg).unwrap();
    handle(&mut state, &env, &info, create_proposal_msg("p", "f")).unwrap();

    let bad = mock_info("voter", &[coin(5, "uatom")]);
    let res = handle(&mut state, &env, &bad, HandleMsg::VoteProposal { proposal_id: 1 });
    assert_eq!(
        res.unwrap_err(),
        ContractError::WrongFundCoin { expected: addr("ucosm"), got: addr("uatom") }
    );

    let none = mock_info("voter", &[]);
    let res = handle(&mut state, &env, &none, HandleMsg::VoteProposal { proposal_id: 1 });
    assert_eq!(res.unwrap_err(), ContractError::ExpectedCoinNotSent);

    let missing = mock_info("voter", &[coin(5, "ucosm")]);
    let res = handle(&mut state, &env, &missing, HandleMsg::VoteProposal { proposal_id: 9 });
    assert_eq!(res.unwrap_err(), ContractError::ProposalNotFound);
}

#[test]
fn vote_overflow() {
    let env = mock_env();
    let info = mock_info("addr", &[coin(1000, "ucosm")]);
    let init_msg = InitMsg {
        admin: addr("addr"),
        leftover_addr: addr("addr"),
        create_proposal_whitelist: None,
        vote_proposal_whitelist: None,
        voting_period: Expiration::AtHeight(env.height + 15),
        proposal_period: Expiration::AtHeight(env.height + 10),
        budget_denom: addr("ucosm"),
        algorithm: clr(),
    };
    let mut state = init(&env, &info, init_msg).unwrap();
    handle(&mut state, &env, &info, create_proposal_msg("p", "f")).unwrap();

    let whale = mock_info("whale", &[coin(u128::MAX, "ucosm")]);
    handle(&mut state, &env, &whale, HandleMsg::VoteProposal { proposal_id: 1 }).unwrap();
    let one_more = mock_info("minnow", &[coin(1, "ucosm")]);
    let res = handle(&mut state, &env, &one_more, HandleMsg::VoteProposal { proposal_id: 1 });
    assert_eq!(res.unwrap_err(), ContractError::Overflow);
}

#[test]
fn query_proposal() {
    let env = mock_env();
    let info = mock_info("addr", &[coin(1000, "ucosm")]);
    let init_msg = InitMsg {
        admin: addr("addr"),
        leftover_addr: addr("addr"),
        create_proposal_whitelist: None,
        vote_proposal_whitelist: None,
        voting_period: Expiration::Never,
        proposal_period: Expiration::Never,
        budget_denom: addr("ucosm"),
        algorithm: clr(),
    };
    let state = init(&env, &info, init_msg).unwrap();

    let proposal = Proposal {
        id: 1,
        title: "title".to_string(),
        description: "desc".to_string(),
        metadata: None,
        fund_address: addr(""),
        collected_funds: 0,
    };
    let state = RoundState {
        config: state.config,
        proposal_seq: 1,
        proposals: vec![proposal.clone()],
        votes: vec![],
    };
    let res = query_proposal_id(&state, 1).unwrap();
    assert_eq!(proposal, res);

    let missing = query_proposal_id(&state, 2);
    assert_eq!(missing.unwrap_err(), ContractError::ProposalNotFound);
}

#[test]
fn query_all_proposal() {
    let env = mock_env();
    let info = mock_info("addr", &[coin(1000, "ucosm")]);
    let init_msg = InitMsg {
        admin: addr("addr"),
        leftover_addr: addr("addr"),
        create_proposal_whitelist: None,
        vote_proposal_whitelist: None,
        voting_period: Expiration::Never,
        proposal_period: Expiration::Never,
        budget_denom: addr("ucosm"),
        algorithm: clr(),
    };
    let state = init(&env, &info, init_msg).unwrap();

    let proposal = Proposal {
        id: 1,
        title: "title".to_string(),
        description: "desc".to_string(),
        metadata: None,
        fund_address: addr(""),
        collected_funds: 0,
    };
    let proposal1 = Proposal {
        id: 2,
        title: "title 2".to_string(),
        description: "desc".to_string(),
        metadata: None,
        fund_address: addr(""),
        collected_funds: 0,
    };
    let state = RoundState {
        config: state.config,
        proposal_seq: 2,
        proposals: vec![proposal.clone(), proposal1.clone()],
        votes: vec![],
    };
    let res = query_all_proposals(&state);
    assert_eq!(AllProposalsResponse { proposals: vec![proposal, proposal1] }, res);
}

#[test]
fn config_is_kept() {
    let env = mock_env();
    let info = mock_info("addr", &[coin(77, "ucosm")]);
    let init_msg = InitMsg {
        admin: addr("boss"),
        leftover_addr: addr("rest"),
        create_proposal_whitelist: None,
        vote_proposal_whitelist: None,
        voting_period: Expiration::AtTime(1571797419 + 99),
        proposal_period: Expiration::AtTime(1571797419 + 88),
        budget_denom: addr("ucosm"),
        algorithm: clr(),
    };
    let state = init(&env, &info, init_msg).unwrap();
    let expected = Config {
        admin: addr("boss"),
        leftover_addr: addr("rest"),
        create_proposal_whitelist: None,
        vote_proposal_whitelist: None,
        voting_period: Expiration::AtTime(1571797419 + 99),
        proposal_period: Expiration::AtTime(1571797419 + 88),
        budget: coin(77, "ucosm"),
        algorithm: clr(),
    };
    assert_eq!(state.config, expected);
}

#[test]
fn monotonic_ids() {
    let env = mock_env();
    let info = mock_info("addr", &[coin(1000, "ucosm")]);
    let init_msg = InitMsg {
        admin: addr("addr"),
        leftover_addr: addr("addr"),
        create_proposal_whitelist: None,
        vote_proposal_whitelist: None,
        voting_period: Expiration::AtHeight(env.height + 15),
        proposal_period: Expiration::AtHeight(env.height + 10),
        budget_denom: addr("ucosm"),
        algorithm: clr(),
    };
    let mut state = init(&env, &info, init_msg).unwrap();

    // sequential creations assign 1..N with no gaps, even interleaved with
    // failed votes
    for expected_id in 1u64..=4 {
        let res = handle(&mut state, &env, &info, create_proposal_msg("p", "f")).unwrap();
        assert_eq!(res.data.unwrap(), expected_id.to_be_bytes().to_vec());
        // a vote on a proposal that does not exist fails and changes nothing
        let res = handle(&mut state, &env, &info, HandleMsg::VoteProposal { proposal_id: 99 });
        assert_eq!(res.unwrap_err(), ContractError::ProposalNotFound);
    }
    let all = query_all_proposals(&state).proposals;
    let ids: Vec<u64> = all.iter().map(|p| p.id).collect();
    assert_eq!(ids, vec![1, 2, 3, 4]);
}

#[test]
fn vote_uniqueness_any_amount() {
    let env = mock_env();
    let info = mock_info("addr", &[coin(1000, "ucosm")]);
    let init_msg = InitMsg {
        admin: addr("addr"),
        leftover_addr: addr("addr"),
        create_proposal_whitelist: None,
        vote_proposal_whitelist: None,
        voting_period: Expiration::AtHeight(env.height + 15),
        proposal_period: Expiration::AtHeight(env.height + 10),
        budget_denom: addr("ucosm"),
        algorithm: clr(),
    };
    let mut state = init(&env, &info, init_msg).unwrap();
    handle(&mut state, &env, &info, create_proposal_msg("p", "f")).unwrap();

    let first = mock_info("voter", &[coin(500, "ucosm")]);
    handle(&mut state, &env, &first, HandleMsg::VoteProposal { proposal_id: 1 }).unwrap();

    // a second vote from the same address always fails, whatever its amount
    for amount in [500u128, 1, 123456] {
        let again = mock_info("voter", &[coin(amount, "ucosm")]);
        let res = handle(&mut state, &env, &again, HandleMsg::VoteProposal { proposal_id: 1 });
        assert_eq!(res.unwrap_err(), ContractError::AddressAlreadyVotedProject);
    }
    let p = query_proposal_id(&state, 1).unwrap();
    assert_eq!(p.collected_funds, 500);
}
