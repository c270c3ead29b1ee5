use vstd::prelude::*;

use crate::ledger::Ledger;
use crate::ledger::internal_transfer_error;
use crate::ledger::register_effect;
use crate::ledger::sum_of;
use crate::ledger::unregister_effect;
use crate::ledger::lemma_sum_of_two;

verus! {

/// The supply counter never drifts from the ledger itself: at all times
/// the total supply equals the sum of the balances of the registered
/// accounts, each of which appears exactly once.
pub proof fn lemma_supply_is_sum_of_balances(l: Ledger)
    requires
        l.wf(),
    ensures
        l.spec_total_supply() as int == sum_of(l.spec_balances()),
        l.spec_balances().len() == l.spec_num_accounts(),
        forall|i: int|
            0 <= i < l.spec_num_accounts() ==> #[trigger] l.spec_balances()[i]
                == l.spec_balance_of(l.spec_accounts()[i]),
        forall|i: int, j: int|
            #![trigger l.spec_accounts()[i], l.spec_accounts()[j]]
            0 <= i < j < l.spec_num_accounts() ==> l.spec_accounts()[i] != l.spec_accounts()[j],
{
    assert forall|i: int| 0 <= i < l.spec_num_accounts() implies #[trigger] l.spec_balances()[i]
        == l.spec_balance_of(l.spec_accounts()[i]) by {
        l.lemma_found(i, l.spec_accounts()[i]);
    }
}

/// An account without a ledger entry always reads as balance zero; that
/// deposits to and withdrawals from such an account fail without touching
/// the ledger is part of the contracts of `internal_deposit` and
/// `internal_withdraw`.
pub proof fn lemma_unregistered_balance_zero(l: Ledger, id: Seq<u8>)
    requires
        !l.spec_registered(id),
    ensures
        l.spec_balance_of(id) == 0,
{
}

/// Registering an account and immediately unregistering it, its balance
/// still zero and untouched, returns the ledger exactly to its
/// pre-registration observable state: nothing was burned, the entry is
/// gone, the account list, every balance and the total supply are as
/// before.
pub proof fn lemma_register_unregister_round_trip(
    pre: Ledger,
    mid: Ledger,
    post: Ledger,
    id: Seq<u8>,
    burned: u128,
)
    requires
        !pre.spec_registered(id),
        register_effect(pre, mid, id),
        unregister_effect(mid, post, id, burned),
    ensures
        burned == 0,
        post.spec_accounts() == pre.spec_accounts(),
        post.spec_total_supply() == pre.spec_total_supply(),
        post.spec_num_accounts() == pre.spec_num_accounts(),
        forall|a: Seq<u8>| #[trigger] post.spec_registered(a) == pre.spec_registered(a),
        forall|a: Seq<u8>| #[trigger] post.spec_balance_of(a) == pre.spec_balance_of(a),
{
    let n = pre.spec_accounts().len() as int;
    assert(mid.spec_accounts() == pre.spec_accounts().push(id));
    let k = mid.spec_index_of(id);
    assert(0 <= k < mid.spec_accounts().len() && mid.spec_accounts()[k] == id);
    if k < n {
        assert(pre.spec_accounts()[k] == id);
        assert(pre.spec_registered(id));
        assert(false);
    }
    assert(post.spec_accounts() =~= pre.spec_accounts());
    assert forall|a: Seq<u8>| #[trigger] post.spec_registered(a) == pre.spec_registered(a) by {
        if a == id {
            assert(!post.spec_registered(id));
            assert(!pre.spec_registered(id));
        }
    }
    assert forall|a: Seq<u8>| #[trigger] post.spec_balance_of(a) == pre.spec_balance_of(a) by {
        if a == id {
            assert(!post.spec_registered(id));
            assert(!pre.spec_registered(id));
        }
    }
}

/// Under the supply invariant a transfer can never overflow the
/// receiver: two distinct registered balances are together bounded by
/// the total supply, so whenever the usual preconditions hold the
/// transfer is owed success. The atomicity half of the story — any
/// failing transfer leaves both balances exactly as they were — is the
/// error case of `transfer`'s own contract.
pub proof fn lemma_transfer_never_overflows(
    l: Ledger,
    sender: Seq<u8>,
    receiver: Seq<u8>,
    amount: u128,
)
    requires
        l.wf(),
        sender != receiver,
        l.spec_registered(sender),
        l.spec_registered(receiver),
        amount > 0,
        amount <= l.spec_balance_of(sender),
    ensures
        l.spec_balance_of(receiver) + amount <= u128::MAX,
        internal_transfer_error(l, sender, receiver, amount) is None,
{
    let i = l.spec_index_of(sender);
    let j = l.spec_index_of(receiver);
    assert(0 <= i < l.spec_accounts().len() && l.spec_accounts()[i] == sender);
    assert(0 <= j < l.spec_accounts().len() && l.spec_accounts()[j] == receiver);
    l.lemma_found(i, sender);
    l.lemma_found(j, receiver);
    assert(i != j);
    lemma_sum_of_two(l.spec_balances(), i, j);
}

} // verus!
