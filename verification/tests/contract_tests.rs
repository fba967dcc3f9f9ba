use payment_splitter::contract::{execute, instantiate, query, query_released, query_shares};
use payment_splitter::error::ContractError;
use payment_splitter::msg::{
    ExecuteMsg, InstantiateMsg, QueryAnswer, QueryMsg, ReleasedResponse, SharesResponse,
    TransferInstruction,
};
use payment_splitter::state::Coin;

fn coins(amount: u128, denom: &str) -> Vec<Coin> {
    vec![Coin { denom: String::from(denom), amount }]
}

#[test]
fn proper_initialization() {
    let one = String::from("one");

    let msg = InstantiateMsg { payees: vec![String::from(&one)], shares: vec![1] };

    // we can just call .unwrap() to assert this was a success
    let (ledger, res) = instantiate(msg).unwrap();
    assert_eq!(0, res.messages.len());

    // it worked, let's query the state
    let res = query(&ledger, QueryMsg::GetPayees {}).unwrap();
    let value = match res {
        QueryAnswer::Payees(p) => p,
        _ => panic!("wrong answer kind"),
    };
    assert_eq!(1, value.payees.len());
    let query_one = value.payees.get(0).unwrap();
    assert_eq!(query_one.as_str(), one);
    let res = query(&ledger, QueryMsg::GetShares { address: one }).unwrap();
    let value = match res {
        QueryAnswer::Shares(s) => s,
        _ => panic!("wrong answer kind"),
    };
    assert_eq!(1, value.shares);
}

#[test]
fn invalid_shares() {
    let one = String::from("one");

    let msg = InstantiateMsg { payees: vec![String::from(&one)], shares: vec![0] };

    let res = instantiate(msg).unwrap_err();
    assert!(matches!(res, ContractError::InvalidShares));
}

#[test]
fn send_one() {
    let one = String::from("asdf");
    let shares = 1;

    let msg = InstantiateMsg { payees: vec![one.clone()], shares: vec![shares] };
    let (mut ledger, _res) = instantiate(msg).unwrap();

    // beneficiary can release it
    let funds = coins(1000, "token");
    let msg = ExecuteMsg::Release { address: one.clone() };
    let res = execute(&mut ledger, &one, &funds, msg).unwrap();
    assert_eq!(1, res.messages.len());
    let msg: &TransferInstruction = res.messages.get(0).expect("no message");
    assert_eq!(
        msg,
        &TransferInstruction {
            to_address: one,
            amount: 1000,
            denom: String::from("token"),
        }
    );
}

#[test]
fn block_nonsplit_address() {
    let one = String::from("asdf");
    let blocked = String::from("blocked");

    let msg = InstantiateMsg { payees: vec![one.clone()], shares: vec![1] };
    let (mut ledger, _res) = instantiate(msg).unwrap();

    // an address outside the split cannot release
    let funds = coins(1000, "token");
    let msg = ExecuteMsg::Release { address: blocked.clone() };
    let err = execute(&mut ledger, &blocked, &funds, msg).unwrap_err();
    assert!(matches!(err, ContractError::Unauthorized));
}

#[test]
fn send_two() {
    let one = String::from("asdf");
    let one_shares = 1;

    let two = String::from("jkl");
    let two_shares = 3;

    let msg = InstantiateMsg {
        payees: vec![one.clone(), two.clone()],
        shares: vec![one_shares, two_shares],
    };
    let (mut ledger, _res) = instantiate(msg).unwrap();

    // beneficiary can release it
    let msg = ExecuteMsg::Release { address: two.clone() };
    let res = execute(&mut ledger, &two, &coins(1000, "token"), msg).unwrap();

    assert_eq!(1, res.messages.len());
    let msg: &TransferInstruction = res.messages.get(0).expect("no message");
    assert_eq!(
        msg,
        &TransferInstruction {
            to_address: two.clone(),
            amount: 750,
            denom: String::from("token"),
        }
    );

    assert_eq!(
        query_released(&ledger, two.clone()).unwrap(),
        ReleasedResponse { released: 750 }
    );
    assert_eq!(
        query_shares(&ledger, two.clone()).unwrap(),
        SharesResponse { shares: 3 }
    );

    // the transfer settled, so the pool dropped to 250;
    // check no more can be released
    let msg = ExecuteMsg::Release { address: two.clone() };
    let err = execute(&mut ledger, &two, &coins(250, "token"), msg).unwrap_err();
    assert!(matches!(err, ContractError::NoPaymentDue));

    // other beneficiary can release theirs
    let msg = ExecuteMsg::Release { address: one.clone() };
    let res = execute(&mut ledger, &one, &coins(250, "token"), msg).unwrap();

    assert_eq!(1, res.messages.len());
    let msg: &TransferInstruction = res.messages.get(0).expect("no message");
    assert_eq!(
        msg,
        &TransferInstruction {
            to_address: one.clone(),
            amount: 250,
            denom: String::from("token"),
        }
    );

    assert_eq!(
        query_released(&ledger, one.clone()).unwrap(),
        ReleasedResponse { released: 250 }
    );
    assert_eq!(
        query_shares(&ledger, one.clone()).unwrap(),
        SharesResponse { shares: 1 }
    );

    // the pool is now empty; check no more can be released
    let msg = ExecuteMsg::Release { address: one.clone() };
    let err = execute(&mut ledger, &one, &coins(0, "token"), msg).unwrap_err();
    assert!(matches!(err, ContractError::NoPaymentDue));
}
