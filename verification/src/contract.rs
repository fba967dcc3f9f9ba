//! The call surface of the ledger: initialization, the release engine, and
//! the read-only queries.

use vstd::prelude::*;

use crate::accounting::{
    entitlement, lemma_entitlement_le_received, lemma_no_overpayment_preserved, spec_entitlement,
};
use crate::error::ContractError;
use crate::msg::{
    ExecuteMsg, InstantiateMsg, PayeesResponse, QueryAnswer, QueryMsg, ReleasedResponse, Response,
    SharesResponse, TransferInstruction,
};
use crate::state::{
    is_payee, lemma_payee_index, lemma_sum_released_update, lemma_sum_shares_elem_le, payee_index,
    sum_shares, Coin, Ledger,
};

verus! {

/// Whether `sender` may trigger a release for `target`: only a payee in the
/// roster may release, and only their own entitlement.
pub open spec fn release_authorized(l: Ledger, sender: Seq<char>, target: Seq<char>) -> bool {
    sender == target && is_payee(l.payees_view(), target)
}

/// The rejection an attempted release returns, or `None` when it succeeds.
/// `funds` is the observed pool balance, `target` the payee released for.
pub open spec fn release_error(
    l: Ledger,
    sender: Seq<char>,
    funds: Seq<Coin>,
    target: Seq<char>,
) -> Option<ContractError> {
    if !release_authorized(l, sender, target) {
        Some(ContractError::Unauthorized)
    } else if funds.len() == 0 {
        Some(ContractError::InvalidBalance)
    } else {
        let idx: int = payee_index(l.payees_view(), target);
        let total_received: int = funds[0].amount + l.spec_total_released();
        if total_received > u128::MAX {
            Some(ContractError::ArithmeticOverflow)
        } else {
            let ent: int = spec_entitlement(
                total_received as int,
                l.shares_view()[idx] as int,
                l.spec_total_shares() as int,
            );
            let rel: int = l.released_view()[idx] as int;
            if ent < rel {
                Some(ContractError::ArithmeticOverflow)
            } else if ent == rel {
                Some(ContractError::NoPaymentDue)
            } else if l.spec_total_released() + (ent - rel) > u128::MAX {
                Some(ContractError::ArithmeticOverflow)
            } else {
                None
            }
        }
    }
}

/// What a successful release does: the target's released amount is brought up
/// to their entitlement over the pool's lifetime receipts, the aggregate
/// counter moves by the amount due, everything else is unchanged, and a
/// single transfer of the amount due, in the observed denomination, is
/// emitted under a release/approve log entry.
pub open spec fn release_ok(
    pre: Ledger,
    post: Ledger,
    funds: Seq<Coin>,
    target: Seq<char>,
    resp: Response,
) -> bool {
    let idx: int = payee_index(pre.payees_view(), target);
    let total_received: int = funds[0].amount + pre.spec_total_released();
    let ent: int = spec_entitlement(
        total_received,
        pre.shares_view()[idx] as int,
        pre.spec_total_shares() as int,
    );
    let due: int = ent - pre.released_view()[idx];
    &&& post.payees_view() == pre.payees_view()
    &&& post.shares_view() == pre.shares_view()
    &&& post.spec_total_shares() == pre.spec_total_shares()
    &&& post.released_view() == pre.released_view().update(idx, ent as u128)
    &&& post.spec_total_released() == pre.spec_total_released() + due
    &&& resp.messages@.len() == 1
    &&& resp.messages@[0].to_address@ == target
    &&& resp.messages@[0].amount == due
    &&& resp.messages@[0].denom@ == funds[0].denom@
    &&& resp.attributes@.len() == 1
    &&& resp.attributes@[0].key@ == "action"@
    &&& resp.attributes@[0].value@ == "approve"@
}

/// Whether every payee's released amount is within their entitlement at the
/// given lifetime receipts.
pub open spec fn within_entitlements(l: Ledger, total_received: int) -> bool {
    forall|j: int|
        0 <= j < l.released_view().len() ==> #[trigger] l.released_view()[j] <= spec_entitlement(
            total_received,
            l.shares_view()[j] as int,
            l.spec_total_shares() as int,
        )
}

/// No over-payment: if every released amount is within its entitlement at
/// some lifetime receipts `r0`, then after a successful release observed at
/// receipts at least `r0` (deposits only add), every released amount is
/// within its entitlement at the new receipts. Together with a fresh ledger
/// starting at zero, this keeps every payee at or below their pro-rata share
/// of everything ever received, whatever the order of deposits and releases.
pub proof fn lemma_no_overpayment(
    pre: Ledger,
    post: Ledger,
    funds: Seq<Coin>,
    target: Seq<char>,
    resp: Response,
    r0: int,
)
    requires
        pre.wf(),
        funds.len() > 0,
        is_payee(pre.payees_view(), target),
        release_ok(pre, post, funds, target, resp),
        0 <= r0 <= funds[0].amount + pre.spec_total_released(),
        within_entitlements(pre, r0),
    ensures
        within_entitlements(post, funds[0].amount + pre.spec_total_released()),
{
    let idx: int = payee_index(pre.payees_view(), target);
    let total_received: int = funds[0].amount + pre.spec_total_released();
    lemma_payee_index(pre.payees_view(), target);
    lemma_sum_shares_elem_le(pre.shares_view(), idx);
    assert forall|j: int|
        0 <= j < post.released_view().len() implies #[trigger] post.released_view()[j]
        <= spec_entitlement(
        total_received,
        post.shares_view()[j] as int,
        post.spec_total_shares() as int,
    ) by {
        if j != idx {
            lemma_no_overpayment_preserved(
                pre.released_view()[j] as int,
                pre.shares_view()[j] as int,
                pre.spec_total_shares() as int,
                r0,
                total_received,
            );
        }
    }
}

/// Idempotent rejection: after a successful release settles (exactly the
/// paid amount leaves the pool) and no deposit intervenes, the same payee's
/// next attempt is rejected with `NoPaymentDue`, because their lifetime
/// receipts are unchanged and their released amount already equals their
/// entitlement.
pub proof fn lemma_idempotent_rejection(
    pre: Ledger,
    post: Ledger,
    funds: Seq<Coin>,
    funds_after: Seq<Coin>,
    target: Seq<char>,
    resp: Response,
)
    requires
        pre.wf(),
        funds.len() > 0,
        release_error(pre, target, funds, target) is None,
        release_ok(pre, post, funds, target, resp),
        funds_after.len() > 0,
        funds_after[0].amount == funds[0].amount - resp.messages@[0].amount,
    ensures
        release_error(post, target, funds_after, target) == Some(ContractError::NoPaymentDue),
{
    lemma_payee_index(pre.payees_view(), target);
    let idx: int = payee_index(pre.payees_view(), target);
    let received: int = funds[0].amount + pre.spec_total_released();
    let ent: int = spec_entitlement(
        received as int,
        pre.shares_view()[idx] as int,
        pre.spec_total_shares() as int,
    );
    // the entitlement fits in the currency type, so the committed released
    // amount is exactly the entitlement
    lemma_sum_shares_elem_le(pre.shares_view(), idx);
    lemma_entitlement_le_received(
        received as int,
        pre.shares_view()[idx] as int,
        pre.spec_total_shares() as int,
    );
    // the settled balance restores the same lifetime receipts, at which the
    // payee is already fully paid out
    assert(funds_after[0].amount + post.spec_total_released() == received);
    assert(post.released_view()[idx] == ent);
}

/// Initialize the ledger from the instantiation message; on success the
/// response carries no log entries and no transfers.
pub fn instantiate(msg: InstantiateMsg) -> (r: Result<(Ledger, Response), ContractError>)
    ensures
        msg.payees@.len() != msg.shares@.len() ==> r == Err::<(Ledger, Response), ContractError>(
            ContractError::InvalidLength,
        ),
        msg.payees@.len() == msg.shares@.len() && (exists|i: int|
            0 <= i < msg.shares@.len() && msg.shares@[i] == 0) ==> r == Err::<
            (Ledger, Response),
            ContractError,
        >(ContractError::InvalidShares),
        msg.payees@.len() == msg.shares@.len() && (forall|i: int|
            0 <= i < msg.shares@.len() ==> #[trigger] msg.shares@[i] >= 1) && sum_shares(
            msg.shares@,
        ) > u64::MAX ==> r == Err::<(Ledger, Response), ContractError>(
            ContractError::ArithmeticOverflow,
        ),
        msg.payees@.len() == msg.shares@.len() && (forall|i: int|
            0 <= i < msg.shares@.len() ==> #[trigger] msg.shares@[i] >= 1) && sum_shares(
            msg.shares@,
        ) <= u64::MAX ==> (r matches Ok(p) && {
            &&& p.0.wf()
            &&& p.0.payees_view() == msg.payees.deep_view()
            &&& p.0.shares_view() == msg.shares@
            &&& p.0.released_view() == Seq::new(msg.payees@.len(), |i: int| 0u128)
            &&& p.0.spec_total_shares() == sum_shares(msg.shares@)
            &&& p.0.spec_total_released() == 0
            &&& p.1.messages@.len() == 0
            &&& p.1.attributes@.len() == 0
        }),
{
    match Ledger::initialize(msg.payees, msg.shares) {
        Ok(l) => Ok((l, Response::new())),
        Err(e) => Err(e),
    }
}

/// Whether the address is in the roster, and so entitled to a release.
pub fn can_release(ledger: &Ledger, addr: &String) -> (can: bool)
    requires
        ledger.wf(),
    ensures
        can == is_payee(ledger.payees_view(), addr@),
{
    match ledger.get_shares(addr) {
        Ok(_) => true,
        Err(_) => false,
    }
}

/// Dispatch a state-changing instruction.
pub fn execute(
    ledger: &mut Ledger,
    sender: &String,
    funds: &Vec<Coin>,
    msg: ExecuteMsg,
) -> (r: Result<Response, ContractError>)
    requires
        old(ledger).wf(),
    ensures
        final(ledger).wf(),
        msg matches ExecuteMsg::Release { address } ==> {
            &&& (r matches Err(e) ==> release_error(*old(ledger), sender@, funds@, address@)
                == Some(e) && *final(ledger) == *old(ledger))
            &&& (r matches Ok(resp) ==> release_error(*old(ledger), sender@, funds@, address@)
                is None && release_ok(*old(ledger), *final(ledger), funds@, address@, resp))
        },
        forall|j: int|
            0 <= j < old(ledger).released_view().len() ==> final(ledger).released_view()[j]
                >= #[trigger] old(ledger).released_view()[j],
{
    match msg {
        ExecuteMsg::Release { address } => execute_release(ledger, sender, funds, address),
    }
}

/// The release engine: authorize the caller, compute the amount due from the
/// observed pool balance and the release history, commit both release
/// counters together, and emit the transfer instruction. A rejected call
/// leaves the ledger untouched, and a payee's released amount never
/// decreases.
pub fn execute_release(
    ledger: &mut Ledger,
    sender: &String,
    funds: &Vec<Coin>,
    address: String,
) -> (r: Result<Response, ContractError>)
    requires
        old(ledger).wf(),
    ensures
        final(ledger).wf(),
        r matches Err(e) ==> release_error(*old(ledger), sender@, funds@, address@) == Some(e)
            && *final(ledger) == *old(ledger),
        r matches Ok(resp) ==> release_error(*old(ledger), sender@, funds@, address@) is None
            && release_ok(*old(ledger), *final(ledger), funds@, address@, resp),
        forall|j: int|
            0 <= j < old(ledger).released_view().len() ==> final(ledger).released_view()[j]
                >= #[trigger] old(ledger).released_view()[j],
{
    if !(*sender == address) {
        return Err(ContractError::Unauthorized);
    }
    if !can_release(ledger, &address) {
        return Err(ContractError::Unauthorized);
    }
    if funds.len() == 0 {
        return Err(ContractError::InvalidBalance);
    }
    proof {
        lemma_payee_index(ledger.payees_view(), address@);
    }
    let ghost idx: int = payee_index(old(ledger).payees_view(), address@);
    let balance = funds[0].amount;
    let total_released = ledger.get_total_released();
    if balance > u128::MAX - total_released {
        return Err(ContractError::ArithmeticOverflow);
    }
    let total_received = balance + total_released;
    let shares = match ledger.get_shares(&address) {
        Ok(s) => s,
        // unreachable: the address was just found in the roster
        Err(_) => {
            proof {
                assert(false);
            }
            return Err(ContractError::Unauthorized);
        },
    };
    let released = match ledger.get_released(&address) {
        Ok(x) => x,
        // unreachable: the address was just found in the roster
        Err(_) => {
            proof {
                assert(false);
            }
            return Err(ContractError::Unauthorized);
        },
    };
    let total_shares = ledger.get_total_shares();
    proof {
        lemma_sum_shares_elem_le(ledger.shares_view(), idx);
    }
    let ent = entitlement(total_received, shares, total_shares);
    if ent < released {
        return Err(ContractError::ArithmeticOverflow);
    }
    let amount = ent - released;
    if amount == 0 {
        return Err(ContractError::NoPaymentDue);
    }
    if amount > u128::MAX - total_released {
        return Err(ContractError::ArithmeticOverflow);
    }
    let new_total = total_released + amount;
    let denom = funds[0].denom.clone();
    match ledger.set_released(&address, ent) {
        Ok(_) => {},
        // unreachable: the address was just found in the roster
        Err(_) => {
            proof {
                assert(false);
            }
            return Err(ContractError::Unauthorized);
        },
    }
    ledger.set_total_released(new_total);
    proof {
        lemma_sum_released_update(old(ledger).released_view(), idx, ent);
    }
    let mut res = Response::new();
    res.add_attribute("action".to_owned(), "approve".to_owned());
    res.add_message(TransferInstruction { to_address: address, amount, denom });
    Ok(res)
}

/// Dispatch a read-only query; no query mutates the ledger.
pub fn query(ledger: &Ledger, msg: QueryMsg) -> (r: Result<QueryAnswer, ContractError>)
    requires
        ledger.wf(),
    ensures
        msg matches QueryMsg::GetPayees {  } ==> (r matches Ok(a) && a matches
            QueryAnswer::Payees(p) && p.payees.deep_view() == ledger.payees_view()),
        msg matches QueryMsg::GetShares { address } ==> {
            &&& is_payee(ledger.payees_view(), address@) ==> (r matches Ok(a) && a matches
                QueryAnswer::Shares(s) && s.shares == ledger.shares_view()[payee_index(
                ledger.payees_view(),
                address@,
            )])
            &&& !is_payee(ledger.payees_view(), address@) ==> r == Err::<
                QueryAnswer,
                ContractError,
            >(ContractError::NotFound)
        },
        msg matches QueryMsg::GetReleased { address } ==> {
            &&& is_payee(ledger.payees_view(), address@) ==> (r matches Ok(a) && a matches
                QueryAnswer::Released(x) && x.released == ledger.released_view()[payee_index(
                ledger.payees_view(),
                address@,
            )])
            &&& !is_payee(ledger.payees_view(), address@) ==> r == Err::<
                QueryAnswer,
                ContractError,
            >(ContractError::NotFound)
        },
{
    match msg {
        QueryMsg::GetPayees {} => match query_payees(ledger) {
            Ok(p) => Ok(QueryAnswer::Payees(p)),
            Err(e) => Err(e),
        },
        QueryMsg::GetShares { address } => match query_shares(ledger, address) {
            Ok(s) => Ok(QueryAnswer::Shares(s)),
            Err(e) => Err(e),
        },
        QueryMsg::GetReleased { address } => match query_released(ledger, address) {
            Ok(x) => Ok(QueryAnswer::Released(x)),
            Err(e) => Err(e),
        },
    }
}

/// The roster, in initialization order.
pub fn query_payees(ledger: &Ledger) -> (r: Result<PayeesResponse, ContractError>)
    ensures
        r matches Ok(p) && p.payees.deep_view() == ledger.payees_view(),
{
    Ok(PayeesResponse { payees: ledger.list_payees() })
}

/// The named payee's share weight; `NotFound` outside the roster.
pub fn query_shares(ledger: &Ledger, address: String) -> (r: Result<
    SharesResponse,
    ContractError,
>)
    requires
        ledger.wf(),
    ensures
        is_payee(ledger.payees_view(), address@) ==> (r matches Ok(s) && s.shares
            == ledger.shares_view()[payee_index(ledger.payees_view(), address@)]),
        !is_payee(ledger.payees_view(), address@) ==> r == Err::<SharesResponse, ContractError>(
            ContractError::NotFound,
        ),
{
    match ledger.get_shares(&address) {
        Ok(s) => Ok(SharesResponse { shares: s }),
        Err(e) => Err(e),
    }
}

/// The named payee's cumulative released amount; `NotFound` outside the
/// roster.
pub fn query_released(ledger: &Ledger, address: String) -> (r: Result<
    ReleasedResponse,
    ContractError,
>)
    requires
        ledger.wf(),
    ensures
        is_payee(ledger.payees_view(), address@) ==> (r matches Ok(x) && x.released
            == ledger.released_view()[payee_index(ledger.payees_view(), address@)]),
        !is_payee(ledger.payees_view(), address@) ==> r == Err::<ReleasedResponse, ContractError>(
            ContractError::NotFound,
        ),
{
    match ledger.get_released(&address) {
        Ok(x) => Ok(ReleasedResponse { released: x }),
        Err(e) => Err(e),
    }
}

} // verus!
