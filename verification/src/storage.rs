use vstd::prelude::*;
use vstd::arithmetic::mul::lemma_mul_basics;
use vstd::arithmetic::mul::lemma_mul_upper_bound;
use vstd::arithmetic::mul::lemma_mul_is_distributive_add_other_way;
use vstd::arithmetic::mul::lemma_mul_is_distributive_sub_other_way;

use crate::account::AccountId;
use crate::account::is_valid_account_id;
use crate::balance::checked_add;
use crate::balance::checked_mul;
use crate::error::Error;
use crate::events::BurnEvent;
use crate::ledger::Ledger;
use crate::ledger::lemma_sum_of_remove;
use crate::ledger::same_config;
use crate::ledger::register_effect;
use crate::ledger::unregister_effect;

verus! {

/// An account's storage balance: the stake held against its entry, and
/// how much of it could be withdrawn.
#[derive(Clone, Copy, Debug, PartialEq, Eq, Structural)]
pub struct StorageBalance {
    pub total: u128,
    pub available: u128,
}

/// The deposits the registration protocol accepts: at least `min`; any
/// surplus above `max` is refunded.
#[derive(Clone, Copy, Debug, PartialEq, Eq, Structural)]
pub struct StorageBalanceBounds {
    pub min: u128,
    pub max: Option<u128>,
}

/// What a successful unregistration hands back to the environment: the
/// released storage stake, the balance the entry held when it was closed,
/// and the burn record if that balance was forcibly destroyed.
#[derive(Debug)]
pub struct UnregisterOutcome {
    pub stake_refund: u128,
    pub closed_balance: u128,
    pub burn: Option<BurnEvent>,
}

/// The storage-cost reconciliation around one mutating call, from the
/// byte measurements before and after, the byte price and the caller's
/// attached payment: either the refund owed to the caller, or the error
/// that aborts the call.
pub open spec fn spec_settle_storage(
    bytes_before: u128,
    bytes_after: u128,
    byte_price: u128,
    attached_payment: u128,
) -> Result<u128, Error> {
    if bytes_after > bytes_before {
        let required = (bytes_after - bytes_before) * byte_price;
        if required > u128::MAX {
            Err(Error::Overflow)
        } else if attached_payment < required {
            Err(Error::InsufficientDeposit)
        } else {
            Ok((attached_payment - required) as u128)
        }
    } else {
        let released = (bytes_before - bytes_after) * byte_price;
        if released > u128::MAX {
            Err(Error::Overflow)
        } else if attached_payment + released > u128::MAX {
            Err(Error::Overflow)
        } else {
            Ok((attached_payment + released) as u128)
        }
    }
}

/// Settles the storage cost of one call.
///
/// If usage grew, the growth must be paid for out of the attached
/// payment — otherwise the call fails with `InsufficientDeposit` and the
/// triggering operation must not commit. If usage shrank, the released
/// stake is refunded. Either way, nothing of the attached payment is
/// silently retained.
pub fn settle_storage(
    bytes_before: u128,
    bytes_after: u128,
    byte_price: u128,
    attached_payment: u128,
) -> (r: Result<u128, Error>)
    ensures
        r == spec_settle_storage(bytes_before, bytes_after, byte_price, attached_payment),
{
    if bytes_after > bytes_before {
        let delta = bytes_after - bytes_before;
        let required = match checked_mul(delta, byte_price) {
            Err(e) => {
                return Err(e);
            },
            Ok(v) => v,
        };
        if attached_payment < required {
            return Err(Error::InsufficientDeposit);
        }
        Ok(attached_payment - required)
    } else {
        let delta = bytes_before - bytes_after;
        let released = match checked_mul(delta, byte_price) {
            Err(e) => {
                return Err(e);
            },
            Ok(v) => v,
        };
        match checked_add(attached_payment, released) {
            Err(e) => Err(e),
            Ok(refund) => Ok(refund),
        }
    }
}

/// Exactly when `storage_deposit` fails, and with which error.
pub open spec fn storage_deposit_error(pre: Ledger, id: Seq<u8>, attached_payment: u128) -> Option<
    Error,
> {
    if pre.spec_registered(id) {
        Some(Error::AlreadyRegistered)
    } else if attached_payment < pre.spec_min_deposit() {
        Some(Error::InsufficientDeposit)
    } else {
        None
    }
}

/// Exactly when `storage_unregister` fails, and with which error.
pub open spec fn storage_unregister_error(pre: Ledger, id: Seq<u8>, force: bool) -> Option<Error> {
    if !pre.spec_registered(id) {
        Some(Error::NotRegistered)
    } else if pre.spec_balance_of(id) > 0 && !force {
        Some(Error::NonZeroBalance)
    } else {
        None
    }
}

/// Exactly when `storage_withdraw` fails, and with which error.
pub open spec fn storage_withdraw_error(pre: Ledger, id: Seq<u8>, amount: Option<u128>) -> Option<
    Error,
> {
    if !pre.spec_registered(id) {
        Some(Error::NotRegistered)
    } else {
        match amount {
            Some(a) => if a > 0 {
                Some(Error::InsufficientBalance)
            } else {
                None
            },
            None => None,
        }
    }
}

/// Removing entry `j`, whose balance is zero, keeps the ledger well
/// formed and leaves every other account untouched.
proof fn lemma_remove_entry(mid: Ledger, post: Ledger, j: int, id: Seq<u8>)
    requires
        mid.wf(),
        0 <= j < mid.spec_accounts().len(),
        mid.spec_accounts()[j] == id,
        mid.spec_balances()[j] == 0,
        post.spec_accounts() == mid.spec_accounts().remove(j),
        post.spec_balances() == mid.spec_balances().remove(j),
        post.spec_total_supply() == mid.spec_total_supply(),
        same_config(mid, post),
    ensures
        post.wf(),
        !post.spec_registered(id),
        forall|a: Seq<u8>|
            a != id ==> #[trigger] post.spec_registered(a) == mid.spec_registered(a),
        forall|a: Seq<u8>|
            a != id ==> #[trigger] post.spec_balance_of(a) == mid.spec_balance_of(a),
{
    let n = mid.spec_accounts().len() as int;
    assert forall|p: int, q: int|
        0 <= p < q < post.spec_accounts().len() implies #[trigger] post.spec_accounts()[p]
        != #[trigger] post.spec_accounts()[q] by {
        let p2 = if p < j {
            p
        } else {
            p + 1
        };
        let q2 = if q < j {
            q
        } else {
            q + 1
        };
        assert(post.spec_accounts()[p] == mid.spec_accounts()[p2]);
        assert(post.spec_accounts()[q] == mid.spec_accounts()[q2]);
    }
    assert forall|p: int| 0 <= p < post.spec_accounts().len() implies is_valid_account_id(
        #[trigger] post.spec_accounts()[p],
    ) by {
        let p2 = if p < j {
            p
        } else {
            p + 1
        };
        assert(post.spec_accounts()[p] == mid.spec_accounts()[p2]);
    }
    lemma_sum_of_remove(mid.spec_balances(), j);
    assert(post.wf());
    assert forall|a: Seq<u8>| a != id implies #[trigger] post.spec_registered(a)
        == mid.spec_registered(a) by {
        if mid.spec_registered(a) {
            let k = choose|k: int| 0 <= k < mid.spec_accounts().len() && mid.spec_accounts()[k]
                == a;
            assert(k != j);
            let k2 = if k < j {
                k
            } else {
                k - 1
            };
            assert(post.spec_accounts()[k2] == mid.spec_accounts()[k]);
            assert(post.spec_registered(a));
        }
        if post.spec_registered(a) {
            let k = choose|k: int| 0 <= k < post.spec_accounts().len() && post.spec_accounts()[k]
                == a;
            let k2 = if k < j {
                k
            } else {
                k + 1
            };
            assert(mid.spec_accounts()[k2] == a);
            assert(mid.spec_registered(a));
        }
    }
    assert forall|a: Seq<u8>| a != id implies #[trigger] post.spec_balance_of(a)
        == mid.spec_balance_of(a) by {
        if mid.spec_registered(a) {
            let k = mid.spec_index_of(a);
            mid.lemma_found(k, a);
            assert(k != j);
            let k2 = if k < j {
                k
            } else {
                k - 1
            };
            assert(post.spec_accounts()[k2] == mid.spec_accounts()[k]);
            assert(post.spec_balances()[k2] == mid.spec_balances()[k]);
            post.lemma_found(k2, a);
        }
    }
    if post.spec_registered(id) {
        let k = choose|k: int| 0 <= k < post.spec_accounts().len() && post.spec_accounts()[k]
            == id;
        let k2 = if k < j {
            k
        } else {
            k + 1
        };
        assert(mid.spec_accounts()[k2] == id);
        assert(k2 != j);
        assert(mid.spec_accounts()[k2] != mid.spec_accounts()[j]);
        assert(false);
    }
}

impl Ledger {
    /// The storage bytes the ledger occupies under its configured cost
    /// model. The product always fits: the account count and the byte
    /// count per account are both 64-bit quantities.
    pub fn storage_usage(&self) -> (r: u128)
        ensures
            r as int == self.spec_storage_usage(),
    {
        let n = self.ids.len();
        let nn = n as u128;
        let ab = self.account_bytes as u128;
        proof {
            self.lemma_repr();
            assert(nn <= u64::MAX as u128);
            assert(ab <= u64::MAX as u128);
            lemma_mul_upper_bound(nn as int, u64::MAX as int, ab as int, u64::MAX as int);
        }
        let grown = nn * ab;
        (self.base_bytes as u128) + grown
    }

    /// The minimum (and only) deposit a registration takes: the marginal
    /// storage of one account entry at the configured byte price.
    pub fn min_storage_deposit(&self) -> (r: u128)
        requires
            self.wf(),
        ensures
            r as int == self.spec_min_deposit(),
    {
        proof {
            self.lemma_repr();
        }
        (self.account_bytes as u128) * self.byte_price
    }

    /// The registration deposit bounds: the stake is flat, so the bounds
    /// coincide.
    pub fn storage_balance_bounds(&self) -> (r: StorageBalanceBounds)
        requires
            self.wf(),
        ensures
            r.min as int == self.spec_min_deposit(),
            r.max == Some(r.min),
    {
        let m = self.min_storage_deposit();
        StorageBalanceBounds { min: m, max: Some(m) }
    }

    /// The storage balance of `id`: its flat stake when registered, with
    /// nothing available to withdraw; `None` when unregistered.
    pub fn storage_balance_of(&self, id: &AccountId) -> (r: Option<StorageBalance>)
        requires
            self.wf(),
        ensures
            self.spec_registered(id@) ==> (r matches Some(sb) && sb.total as int
                == self.spec_min_deposit() && sb.available == 0),
            !self.spec_registered(id@) ==> r is None,
    {
        if self.is_registered(id) {
            let m = self.min_storage_deposit();
            Some(StorageBalance { total: m, available: 0 })
        } else {
            None
        }
    }

    /// Withdraws from an account's storage balance. The stake backing a
    /// live entry is never available, so only a zero (or absent) amount
    /// succeeds, and nothing ever changes.
    pub fn storage_withdraw(&self, id: &AccountId, amount: Option<u128>) -> (r: Result<
        StorageBalance,
        Error,
    >)
        requires
            self.wf(),
        ensures
            r matches Err(e) ==> Some(e) == storage_withdraw_error(*self, id@, amount),
            r matches Ok(sb) ==> (storage_withdraw_error(*self, id@, amount) is None && sb.total
                as int == self.spec_min_deposit() && sb.available == 0),
    {
        if !self.is_registered(id) {
            return Err(Error::NotRegistered);
        }
        match amount {
            Some(a) => {
                if a > 0 {
                    return Err(Error::InsufficientBalance);
                }
            },
            None => {},
        }
        let m = self.min_storage_deposit();
        Ok(StorageBalance { total: m, available: 0 })
    }

    /// Registers `id`, charging its storage growth against the attached
    /// payment through `settle_storage`. On success the surplus above the
    /// minimum deposit is returned for refund; on failure nothing is
    /// created and the full payment is due back.
    pub fn storage_deposit(&mut self, id: &AccountId, attached_payment: u128) -> (r: Result<
        (StorageBalance, u128),
        Error,
    >)
        requires
            old(self).wf(),
            id.wf(),
        ensures
            final(self).wf(),
            r matches Err(e) ==> (Some(e) == storage_deposit_error(*old(self), id@,
            attached_payment) && *final(self) == *old(self)),
            r matches Ok(p) ==> (storage_deposit_error(*old(self), id@, attached_payment) is None
                && register_effect(*old(self), *final(self), id@) && p.0.total as int == old(
                self,
            ).spec_min_deposit() && p.0.available == 0 && p.1 as int == attached_payment - old(
                self,
            ).spec_min_deposit()),
    {
        if self.find_index(id).is_some() {
            return Err(Error::AlreadyRegistered);
        }
        let n = self.ids.len();
        let before = self.storage_usage();
        proof {
            self.lemma_repr();
            let n1 = n as int + 1;
            assert(self.spec_num_accounts() as int == n as int);
            assert(n1 <= 18446744073709551616int);
            lemma_mul_upper_bound(
                n1,
                18446744073709551616int,
                self.spec_account_bytes() as int,
                u64::MAX as int,
            );
            lemma_mul_is_distributive_add_other_way(self.spec_account_bytes() as int, n1 - 1, 1);
        }
        let after = before + (self.account_bytes as u128);
        proof {
            lemma_mul_basics(self.spec_account_bytes() as int);
            lemma_mul_basics(self.byte_price as int);
            assert(after as int - before as int == self.spec_account_bytes() as int);
            assert((after as int - before as int) * (self.byte_price as int)
                == self.spec_min_deposit());
            assert(self.spec_min_deposit() <= u128::MAX as int);
        }
        let refund = match settle_storage(before, after, self.byte_price, attached_payment) {
            Err(e) => {
                proof {
                    assert(e == Error::InsufficientDeposit);
                }
                return Err(e);
            },
            Ok(v) => v,
        };
        match self.internal_register(id) {
            Err(_) => {
                proof {
                    assert(false);
                }
                return Err(Error::AlreadyRegistered);
            },
            Ok(_) => {},
        }
        let m = self.min_storage_deposit();
        Ok((StorageBalance { total: m, available: 0 }, refund))
    }

    /// Unregisters `id`, refusing while funds remain unless `force` burns
    /// them. Removing the entry releases its storage stake, settled as a
    /// refund to the caller; a forced burn reduces the total supply and
    /// is reported as a burn record.
    pub fn storage_unregister(&mut self, id: &AccountId, force: bool) -> (r: Result<
        UnregisterOutcome,
        Error,
    >)
        requires
            old(self).wf(),
            id.wf(),
        ensures
            final(self).wf(),
            r matches Err(e) ==> (Some(e) == storage_unregister_error(*old(self), id@, force)
                && *final(self) == *old(self)),
            r matches Ok(out) ==> (storage_unregister_error(*old(self), id@, force) is None
                && unregister_effect(*old(self), *final(self), id@, out.closed_balance)
                && out.closed_balance == old(self).spec_balance_of(id@) && out.stake_refund as int
                == old(self).spec_min_deposit() && (out.closed_balance > 0 ==> (out.burn matches
            Some(b) && b.owner@ == id@ && b.amount == out.closed_balance && b.memo is None)) && (
            out.closed_balance == 0 ==> out.burn is None)),
    {
        let i = match self.find_index(id) {
            None => {
                return Err(Error::NotRegistered);
            },
            Some(i) => i,
        };
        proof {
            self.lemma_found(i as int, id@);
            self.lemma_repr();
        }
        let bal = self.balances[i];
        if bal > 0 && !force {
            return Err(Error::NonZeroBalance);
        }
        let ghost pre = *self;
        let burn: Option<BurnEvent>;
        if bal > 0 {
            match self.internal_withdraw(id, bal) {
                Err(_) => {
                    proof {
                        assert(false);
                    }
                    return Err(Error::NotRegistered);
                },
                Ok(_) => {},
            }
            burn = Some(BurnEvent { owner: id.duplicate(), amount: bal, memo: None });
        } else {
            burn = None;
        }
        let ghost mid = *self;
        proof {
            assert(mid.spec_accounts() == pre.spec_accounts());
            assert(mid.spec_accounts()[i as int] == id@);
            assert(mid.spec_registered(id@));
        }
        let j = match self.find_index(id) {
            None => {
                proof {
                    assert(false);
                }
                return Err(Error::NotRegistered);
            },
            Some(j) => j,
        };
        proof {
            mid.lemma_found(j as int, id@);
            pre.lemma_found(j as int, id@);
            assert(mid.spec_balances()[j as int] == 0);
        }
        let n = self.ids.len();
        let before = self.storage_usage();
        proof {
            self.lemma_repr();
            assert(mid.spec_num_accounts() as int == n as int);
        }
        self.ids.remove(j);
        self.balances.remove(j);
        proof {
            let post = *self;
            mid.lemma_repr();
            post.lemma_repr();
            assert(post.spec_accounts() =~= mid.spec_accounts().remove(j as int));
            assert(post.spec_balances() =~= mid.spec_balances().remove(j as int));
            lemma_remove_entry(mid, post, j as int, id@);
            let nn = n as int;
            assert(nn <= 18446744073709551615int);
            lemma_mul_upper_bound(
                nn,
                18446744073709551616int,
                mid.spec_account_bytes() as int,
                u64::MAX as int,
            );
            lemma_mul_is_distributive_sub_other_way(mid.spec_account_bytes() as int, nn, nn - 1);
        }
        let after = self.storage_usage();
        proof {
            let postl = *self;
            lemma_mul_basics(mid.spec_account_bytes() as int);
            lemma_mul_basics(self.byte_price as int);
            assert(postl.spec_num_accounts() as int == n as int - 1);
            assert(before as int == mid.spec_base_bytes() as int + (n as int)
                * mid.spec_account_bytes() as int);
            assert(after as int == mid.spec_base_bytes() as int + (n as int - 1)
                * mid.spec_account_bytes() as int);
            assert(before as int - after as int == mid.spec_account_bytes() as int);
            assert((before as int - after as int) * (self.byte_price as int)
                == mid.spec_min_deposit());
            assert(mid.spec_min_deposit() <= u128::MAX as int);
        }
        let stake_refund = match settle_storage(before, after, self.byte_price, 0) {
            Err(_) => {
                proof {
                    assert(false);
                }
                return Err(Error::NotRegistered);
            },
            Ok(v) => v,
        };
        Ok(UnregisterOutcome { stake_refund, closed_balance: bal, burn })
    }
}

} // verus!
