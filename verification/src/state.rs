//! The ledger store: the payee roster, share weights, and release history,
//! together with the spec-level model they are reasoned about with.

use vstd::prelude::*;

use crate::error::ContractError;

verus! {

/// A quantity of the pool's currency, tagged with its denomination.
pub struct Coin {
    pub denom: String,
    pub amount: u128,
}

/// Sum of a sequence of share weights, as a mathematical integer.
pub open spec fn sum_shares(s: Seq<u64>) -> int
    decreases s.len(),
{
    if s.len() == 0 {
        0
    } else {
        sum_shares(s.drop_last()) + s.last()
    }
}

/// Sum of a sequence of released amounts, as a mathematical integer.
pub open spec fn sum_released(s: Seq<u128>) -> int
    decreases s.len(),
{
    if s.len() == 0 {
        0
    } else {
        sum_released(s.drop_last()) + s.last()
    }
}

/// A sum of share weights is never negative.
pub proof fn lemma_sum_shares_nonneg(s: Seq<u64>)
    ensures
        sum_shares(s) >= 0,
    decreases s.len(),
{
    if s.len() > 0 {
        lemma_sum_shares_nonneg(s.drop_last());
    }
}

/// Every single share weight is at most the sum of all of them.
pub proof fn lemma_sum_shares_elem_le(s: Seq<u64>, i: int)
    requires
        0 <= i < s.len(),
    ensures
        s[i] <= sum_shares(s),
    decreases s.len(),
{
    lemma_sum_shares_nonneg(s.drop_last());
    if i < s.len() - 1 {
        lemma_sum_shares_elem_le(s.drop_last(), i);
    }
}

/// Summing one more element extends the sum of a prefix.
pub proof fn lemma_sum_shares_take_succ(s: Seq<u64>, k: int)
    requires
        0 <= k < s.len(),
    ensures
        sum_shares(s.take(k + 1)) == sum_shares(s.take(k)) + s[k],
{
    assert(s.take(k + 1).drop_last() =~= s.take(k));
    assert(s.take(k + 1).last() == s[k]);
}

/// The sum of a prefix never exceeds the sum of the whole sequence.
pub proof fn lemma_sum_shares_take_le(s: Seq<u64>, k: int)
    requires
        0 <= k <= s.len(),
    ensures
        sum_shares(s.take(k)) <= sum_shares(s),
    decreases s.len() - k,
{
    if k == s.len() {
        assert(s.take(k) =~= s);
    } else {
        lemma_sum_shares_take_succ(s, k);
        lemma_sum_shares_take_le(s, k + 1);
    }
}

/// Overwriting one entry changes the sum by the difference at that entry.
pub proof fn lemma_sum_released_update(s: Seq<u128>, i: int, v: u128)
    requires
        0 <= i < s.len(),
    ensures
        sum_released(s.update(i, v)) == sum_released(s) - s[i] + v,
    decreases s.len(),
{
    if i == s.len() - 1 {
        assert(s.update(i, v).drop_last() =~= s.drop_last());
        assert(s.update(i, v).last() == v);
    } else {
        assert(s.update(i, v).drop_last() =~= s.drop_last().update(i, v));
        assert(s.update(i, v).last() == s.last());
        lemma_sum_released_update(s.drop_last(), i, v);
    }
}

/// A sequence of all-zero released amounts sums to zero.
pub proof fn lemma_sum_released_zero(s: Seq<u128>)
    requires
        forall|i: int| 0 <= i < s.len() ==> s[i] == 0,
    ensures
        sum_released(s) == 0,
    decreases s.len(),
{
    if s.len() > 0 {
        lemma_sum_released_zero(s.drop_last());
    }
}

/// Whether an address occurs in the roster.
pub open spec fn is_payee(payees: Seq<Seq<char>>, addr: Seq<char>) -> bool {
    exists|i: int| 0 <= i < payees.len() && payees[i] == addr
}

/// Index of the first roster entry holding the given address, or -1 if absent.
pub open spec fn payee_index(payees: Seq<Seq<char>>, addr: Seq<char>) -> int
    decreases payees.len(),
{
    if payees.len() == 0 {
        -1
    } else if payees[0] == addr {
        0
    } else if payee_index(payees.drop_first(), addr) < 0 {
        -1
    } else {
        1 + payee_index(payees.drop_first(), addr)
    }
}

/// `payee_index` finds the first occurrence of an address, and finds one
/// exactly when the address is in the roster.
pub proof fn lemma_payee_index(payees: Seq<Seq<char>>, addr: Seq<char>)
    ensures
        is_payee(payees, addr) <==> 0 <= payee_index(payees, addr) < payees.len(),
        !is_payee(payees, addr) ==> payee_index(payees, addr) == -1,
        is_payee(payees, addr) ==> payees[payee_index(payees, addr)] == addr,
        forall|j: int| 0 <= j < payee_index(payees, addr) ==> payees[j] != addr,
    decreases payees.len(),
{
    if payees.len() == 0 {
    } else if payees[0] == addr {
    } else {
        let rest = payees.drop_first();
        lemma_payee_index(rest, addr);
        assert(forall|i: int| 1 <= i < payees.len() ==> payees[i] == rest[i - 1]);
        if is_payee(payees, addr) {
            let w = choose|i: int| 0 <= i < payees.len() && payees[i] == addr;
            assert(rest[w - 1] == addr);
            assert(is_payee(rest, addr));
        }
        if is_payee(rest, addr) {
            let w = choose|i: int| 0 <= i < rest.len() && rest[i] == addr;
            assert(payees[w + 1] == addr);
            assert(is_payee(payees, addr));
        }
    }
}

/// A position that matches, with no earlier match, is exactly `payee_index`.
pub proof fn lemma_payee_index_at(payees: Seq<Seq<char>>, addr: Seq<char>, k: int)
    requires
        0 <= k < payees.len(),
        payees[k] == addr,
        forall|j: int| 0 <= j < k ==> payees[j] != addr,
    ensures
        payee_index(payees, addr) == k,
    decreases payees.len(),
{
    if k == 0 {
    } else {
        let rest = payees.drop_first();
        assert(forall|i: int| 1 <= i < payees.len() ==> payees[i] == rest[i - 1]);
        assert(rest[k - 1] == addr);
        lemma_payee_index_at(rest, addr, k - 1);
    }
}

/// The proportional-release ledger: the immutable roster with its share
/// weights, and the cumulative release history.
#[derive(Debug)]
pub struct Ledger {
    payees: Vec<String>,
    shares: Vec<u64>,
    released: Vec<u128>,
    total_shares: u64,
    total_released: u128,
}

impl Ledger {
    /// The roster, as a sequence of address character sequences.
    pub closed spec fn payees_view(self) -> Seq<Seq<char>> {
        self.payees.deep_view()
    }

    /// The share weight of each roster slot.
    pub closed spec fn shares_view(self) -> Seq<u64> {
        self.shares@
    }

    /// The cumulative amount released to each roster slot.
    pub closed spec fn released_view(self) -> Seq<u128> {
        self.released@
    }

    /// The stored sum of all share weights.
    pub closed spec fn spec_total_shares(self) -> u64 {
        self.total_shares
    }

    /// The stored aggregate of all released amounts.
    pub closed spec fn spec_total_released(self) -> u128 {
        self.total_released
    }

    /// Well-formedness: the three columns line up, every share weight is
    /// positive, the stored total of shares is their sum, and the stored
    /// aggregate released amount is the sum of the per-payee amounts.
    pub open spec fn wf(self) -> bool {
        &&& self.shares_view().len() == self.payees_view().len()
        &&& self.released_view().len() == self.payees_view().len()
        &&& forall|i: int|
            0 <= i < self.shares_view().len() ==> #[trigger] self.shares_view()[i] >= 1
        &&& sum_shares(self.shares_view()) == self.spec_total_shares()
        &&& sum_released(self.released_view()) == self.spec_total_released()
    }
}

/// Index of the first roster entry holding `addr`, as `payee_index` gives it,
/// or `None` when `addr` is not in the roster.
fn find_payee(payees: &Vec<String>, addr: &String) -> (r: Option<usize>)
    ensures
        match r {
            Some(i) => i < payees@.len() && i == payee_index(payees.deep_view(), addr@)
                && payees.deep_view()[i as int] == addr@,
            None => !is_payee(payees.deep_view(), addr@),
        },
{
    let n = payees.len();
    let mut k: usize = 0;
    while k < n
        invariant
            k <= n,
            n == payees@.len(),
            forall|j: int| 0 <= j < k ==> payees.deep_view()[j] != addr@,
        decreases n - k,
    {
        if payees[k] == *addr {
            proof {
                lemma_payee_index_at(payees.deep_view(), addr@, k as int);
            }
            return Some(k);
        }
        k += 1;
    }
    None
}

impl Ledger {
    /// Build a fresh ledger from a roster and its share weights: the lists
    /// must have the same length, every share weight must be positive, and
    /// their sum must be representable; every released amount starts at zero.
    pub fn initialize(payees: Vec<String>, shares: Vec<u64>) -> (r: Result<Ledger, ContractError>)
        ensures
            payees@.len() != shares@.len() ==> r == Err::<Ledger, ContractError>(
                ContractError::InvalidLength,
            ),
            payees@.len() == shares@.len() && (exists|i: int|
                0 <= i < shares@.len() && shares@[i] == 0) ==> r == Err::<Ledger, ContractError>(
                ContractError::InvalidShares,
            ),
            payees@.len() == shares@.len() && (forall|i: int|
                0 <= i < shares@.len() ==> #[trigger] shares@[i] >= 1) && sum_shares(shares@)
                > u64::MAX ==> r == Err::<Ledger, ContractError>(ContractError::ArithmeticOverflow),
            payees@.len() == shares@.len() && (forall|i: int|
                0 <= i < shares@.len() ==> #[trigger] shares@[i] >= 1) && sum_shares(shares@)
                <= u64::MAX ==> (r matches Ok(l) && {
                &&& l.wf()
                &&& l.payees_view() == payees.deep_view()
                &&& l.shares_view() == shares@
                &&& l.released_view() == Seq::new(payees@.len(), |i: int| 0u128)
                &&& l.spec_total_shares() == sum_shares(shares@)
                &&& l.spec_total_released() == 0
            }),
    {
        if payees.len() != shares.len() {
            return Err(ContractError::InvalidLength);
        }
        let n = payees.len();
        let mut released: Vec<u128> = Vec::new();
        let mut k: usize = 0;
        while k < n
            invariant
                k <= n,
                n == shares@.len(),
                n == payees@.len(),
                forall|j: int| 0 <= j < k ==> #[trigger] shares@[j] >= 1,
                released@ =~= Seq::new(k as nat, |i: int| 0u128),
            decreases n - k,
        {
            if shares[k] < 1 {
                return Err(ContractError::InvalidShares);
            }
            released.push(0);
            k += 1;
        }
        let mut total: u64 = 0;
        let mut m: usize = 0;
        while m < n
            invariant
                m <= n,
                n == shares@.len(),
                n == payees@.len(),
                forall|j: int| 0 <= j < n ==> #[trigger] shares@[j] >= 1,
                total == sum_shares(shares@.take(m as int)),
            decreases n - m,
        {
            let s = shares[m];
            proof {
                lemma_sum_shares_take_succ(shares@, m as int);
            }
            if total > u64::MAX - s {
                proof {
                    lemma_sum_shares_take_le(shares@, m as int + 1);
                }
                return Err(ContractError::ArithmeticOverflow);
            }
            total = total + s;
            m += 1;
        }
        proof {
            assert(shares@.take(n as int) =~= shares@);
            lemma_sum_released_zero(released@);
        }
        Ok(Ledger { payees, shares, released, total_shares: total, total_released: 0 })
    }

    /// The share weight of the named payee; `NotFound` outside the roster.
    pub fn get_shares(&self, payee: &String) -> (r: Result<u64, ContractError>)
        requires
            self.wf(),
        ensures
            is_payee(self.payees_view(), payee@) ==> r == Ok::<u64, ContractError>(
                self.shares_view()[payee_index(self.payees_view(), payee@)],
            ),
            !is_payee(self.payees_view(), payee@) ==> r == Err::<u64, ContractError>(
                ContractError::NotFound,
            ),
    {
        match find_payee(&self.payees, payee) {
            Some(i) => Ok(self.shares[i]),
            None => Err(ContractError::NotFound),
        }
    }

    /// The cumulative amount released to the named payee; `NotFound` outside
    /// the roster.
    pub fn get_released(&self, payee: &String) -> (r: Result<u128, ContractError>)
        requires
            self.wf(),
        ensures
            is_payee(self.payees_view(), payee@) ==> r == Ok::<u128, ContractError>(
                self.released_view()[payee_index(self.payees_view(), payee@)],
            ),
            !is_payee(self.payees_view(), payee@) ==> r == Err::<u128, ContractError>(
                ContractError::NotFound,
            ),
    {
        match find_payee(&self.payees, payee) {
            Some(i) => Ok(self.released[i]),
            None => Err(ContractError::NotFound),
        }
    }

    /// The sum of all share weights.
    pub fn get_total_shares(&self) -> (r: u64)
        ensures
            r == self.spec_total_shares(),
    {
        self.total_shares
    }

    /// The aggregate amount released to all payees.
    pub fn get_total_released(&self) -> (r: u128)
        ensures
            r == self.spec_total_released(),
    {
        self.total_released
    }

    /// The roster, in initialization order.
    pub fn list_payees(&self) -> (r: Vec<String>)
        ensures
            r.deep_view() == self.payees_view(),
    {
        let r = self.payees.clone();
        proof {
            assert(r.deep_view() =~= self.payees.deep_view());
        }
        r
    }

    /// Overwrite the named payee's cumulative released amount. Used by the
    /// release engine with an amount it has validated; the caller is in
    /// charge of keeping the aggregate counter consistent.
    pub fn set_released(&mut self, payee: &String, amount: u128) -> (r: Result<
        (),
        ContractError,
    >)
        requires
            old(self).wf(),
        ensures
            final(self).payees_view() == old(self).payees_view(),
            final(self).shares_view() == old(self).shares_view(),
            final(self).spec_total_shares() == old(self).spec_total_shares(),
            final(self).spec_total_released() == old(self).spec_total_released(),
            is_payee(old(self).payees_view(), payee@) ==> r == Ok::<(), ContractError>(())
                && final(self).released_view() == old(self).released_view().update(
                payee_index(old(self).payees_view(), payee@),
                amount,
            ),
            !is_payee(old(self).payees_view(), payee@) ==> r == Err::<(), ContractError>(
                ContractError::NotFound,
            ) && final(self).released_view() == old(self).released_view(),
    {
        match find_payee(&self.payees, payee) {
            Some(i) => {
                self.released.set(i, amount);
                Ok(())
            },
            None => Err(ContractError::NotFound),
        }
    }

    /// Overwrite the aggregate released counter. Used by the release engine
    /// with an amount it has validated.
    pub fn set_total_released(&mut self, amount: u128)
        ensures
            final(self).payees_view() == old(self).payees_view(),
            final(self).shares_view() == old(self).shares_view(),
            final(self).released_view() == old(self).released_view(),
            final(self).spec_total_shares() == old(self).spec_total_shares(),
            final(self).spec_total_released() == amount,
    {
        self.total_released = amount;
    }
}

/// Conservation: in a well-formed ledger the aggregate released counter equals
/// the sum of the per-payee released amounts.
pub proof fn lemma_conservation(l: Ledger)
    requires
        l.wf(),
    ensures
        sum_released(l.released_view()) == l.spec_total_released(),
{
}

} // verus!
