use quadratic_funding::error::ContractError;
use quadratic_funding::helper::{extract_budget_coin, extract_funding_coin, u64_to_be_bytes};
use quadratic_funding::msg::InitMsg;
use quadratic_funding::matching::QuadraticFundingAlgorithm;
use quadratic_funding::sqrt::integer_sqrt;
use quadratic_funding::state::{BlockInfo, Coin, Expiration, MessageInfo};

fn bytes(s: &str) -> Vec<u8> {
    s.as_bytes().to_vec()
}

fn coin(amount: u128, denom: &str) -> Coin {
    Coin { denom: bytes(denom), amount }
}

#[test]
fn test_extract_funding_coin() {
    let denom = "denom";
    let c = vec![coin(4, denom)];

    let res = extract_funding_coin(&c);
    match res {
        Ok(cc) => assert_eq!(c, vec![cc]),
        Err(err) => panic!("unexpected error, got {:?}", err),
    }

    match extract_funding_coin(&vec![]) {
        Ok(_) => panic!("expected error"),
        Err(ContractError::ExpectedCoinNotSent) => {}
        Err(err) => panic!("unexpected error, got {:?}", err),
    }

    match extract_funding_coin(&vec![coin(4, denom), coin(5, denom)]) {
        Ok(_) => panic!("expected error"),
        Err(ContractError::MultipleCoinsSent) => {}
        Err(err) => panic!("unexpected error, got {:?}", err),
    }
}

#[test]
fn test_extract_budget_coin() {
    let sent = vec![coin(9, "ucosm")];
    let got = extract_budget_coin(&sent, &bytes("ucosm")).unwrap();
    assert_eq!(got, coin(9, "ucosm"));

    let res = extract_budget_coin(&sent, &bytes("uatom"));
    assert_eq!(
        res.unwrap_err(),
        ContractError::WrongFundCoin { expected: bytes("uatom"), got: bytes("ucosm") }
    );
}

#[test]
fn validate_init_msg() {
    let mut env = BlockInfo { height: 0, time: 0 };
    let denom = String::from("denom");
    let info = MessageInfo { sender: bytes("creator"), sent_funds: vec![coin(4, denom.as_str())] };

    env.height = 30;
    let msg = InitMsg {
        admin: bytes("creator"),
        leftover_addr: bytes("creator"),
        create_proposal_whitelist: None,
        vote_proposal_whitelist: None,
        voting_period: Expiration::Never,
        proposal_period: Expiration::Never,
        budget_denom: bytes(denom.as_str()),
        algorithm: QuadraticFundingAlgorithm::CapitalConstrainedLiberalRadicalism {
            parameter: "".to_string(),
        },
    };

    let mut msg1 = msg.clone();
    msg1.voting_period = Expiration::AtHeight(15);
    match msg1.validate(&env, &info) {
        Ok(_) => panic!("expected error"),
        Err(ContractError::VotingPeriodExpired) => {}
        Err(err) => panic!("unexpected error, got {:?}", err),
    }

    let mut msg2 = msg.clone();
    msg2.proposal_period = Expiration::AtHeight(15);
    match msg2.validate(&env, &info) {
        Ok(_) => panic!("expected error"),
        Err(ContractError::ProposalPeriodExpired) => {}
        Err(err) => panic!("unexpected error, got {:?}", err),
    }

    let msg3 = msg.clone();
    let two = MessageInfo {
        sender: bytes("creator"),
        sent_funds: vec![coin(4, denom.as_str()), coin(5, denom.as_str())],
    };
    match msg3.validate(&env, &two) {
        Ok(_) => panic!("expected error"),
        Err(ContractError::MultipleCoinsSent) => {}
        Err(err) => panic!("unexpected error, got {:?}", err),
    }

    assert!(msg.validate(&env, &info).is_ok());
}

#[test]
fn test_integer_sqrt() {
    assert_eq!(integer_sqrt(0), 0);
    assert_eq!(integer_sqrt(1), 1);
    assert_eq!(integer_sqrt(3), 1);
    assert_eq!(integer_sqrt(4), 2);
    assert_eq!(integer_sqrt(7200), 84);
    assert_eq!(integer_sqrt(12345), 111);
    assert_eq!(integer_sqrt(44999), 212);
    assert_eq!(integer_sqrt(u128::MAX), u64::MAX as u128);
}

#[test]
fn test_u64_be_bytes() {
    assert_eq!(u64_to_be_bytes(1), 1u64.to_be_bytes().to_vec());
    assert_eq!(u64_to_be_bytes(0), vec![0u8; 8]);
    assert_eq!(
        u64_to_be_bytes(0x0102030405060708),
        vec![1u8, 2, 3, 4, 5, 6, 7, 8]
    );
    assert_eq!(u64_to_be_bytes(u64::MAX), vec![0xffu8; 8]);
}
