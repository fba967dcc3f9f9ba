//! The request and response envelope of the ledger: what the host hands in
//! and what it gets back.

use vstd::prelude::*;

verus! {

/// Initialization input: one share weight per payee address, by index.
#[derive(Clone, Debug, PartialEq)]
pub struct InstantiateMsg {
    pub payees: Vec<String>,
    pub shares: Vec<u64>,
}

/// A state-changing instruction.
#[derive(Clone, Debug, PartialEq)]
pub enum ExecuteMsg {
    /// Withdraw everything currently due to the named payee.
    Release { address: String },
}

/// A read-only projection of ledger state.
#[derive(Clone, Debug, PartialEq)]
pub enum QueryMsg {
    GetShares { address: String },
    GetReleased { address: String },
    GetPayees {},
}

/// Answer to `QueryMsg::GetPayees`.
#[derive(Clone, Debug, PartialEq)]
pub struct PayeesResponse {
    pub payees: Vec<String>,
}

/// Answer to `QueryMsg::GetReleased`.
#[derive(Clone, Debug, PartialEq)]
pub struct ReleasedResponse {
    pub released: u128,
}

/// Answer to `QueryMsg::GetShares`.
#[derive(Clone, Debug, PartialEq)]
pub struct SharesResponse {
    pub shares: u64,
}

/// The answer to a query, one variant per query kind.
#[derive(Clone, Debug, PartialEq)]
pub enum QueryAnswer {
    Payees(PayeesResponse),
    Shares(SharesResponse),
    Released(ReleasedResponse),
}

/// An instruction to move funds out of the pool; settling it is the host's
/// business, and is assumed to succeed once emitted.
#[derive(Clone, Debug, PartialEq)]
pub struct TransferInstruction {
    pub to_address: String,
    pub amount: u128,
    pub denom: String,
}

/// A log entry attached to a successful call.
#[derive(Clone, Debug, PartialEq)]
pub struct Attribute {
    pub key: String,
    pub value: String,
}

/// What a successful state-changing call hands back to the host: log entries
/// and the transfer instructions to settle.
#[derive(Clone, Debug, PartialEq)]
pub struct Response {
    pub attributes: Vec<Attribute>,
    pub messages: Vec<TransferInstruction>,
}

impl Response {
    /// An empty response: no log entries, no transfers.
    pub fn new() -> (r: Response)
        ensures
            r.attributes@.len() == 0,
            r.messages@.len() == 0,
    {
        Response { attributes: Vec::new(), messages: Vec::new() }
    }

    /// Append one log entry.
    pub fn add_attribute(&mut self, key: String, value: String)
        ensures
            final(self).attributes@ == old(self).attributes@.push(
                Attribute { key: key, value: value },
            ),
            final(self).messages@ == old(self).messages@,
    {
        self.attributes.push(Attribute { key, value });
    }

    /// Append one transfer instruction.
    pub fn add_message(&mut self, message: TransferInstruction)
        ensures
            final(self).messages@ == old(self).messages@.push(message),
            final(self).attributes@ == old(self).attributes@,
    {
        self.messages.push(message);
    }
}

} // verus!
