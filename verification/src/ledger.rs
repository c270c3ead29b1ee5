use vstd::prelude::*;

use crate::account::AccountId;
use crate::account::is_valid_account_id;
use crate::balance::checked_add;
use crate::balance::checked_mul;
use crate::balance::checked_sub;
use crate::error::Error;
use crate::events::MintEvent;

verus! {

/// Sum of a sequence of balances, as an unbounded integer.
pub open spec fn sum_of(s: Seq<u128>) -> int
    decreases s.len(),
{
    if s.len() == 0 {
        0
    } else {
        sum_of(s.drop_last()) + s.last()
    }
}

/// A sum of balances is never negative.
pub proof fn lemma_sum_of_nonneg(s: Seq<u128>)
    ensures
        sum_of(s) >= 0,
    decreases s.len(),
{
    if s.len() > 0 {
        lemma_sum_of_nonneg(s.drop_last());
    }
}

/// Every element is bounded by the sum of the whole sequence.
pub proof fn lemma_sum_of_le(s: Seq<u128>, i: int)
    requires
        0 <= i < s.len(),
    ensures
        s[i] <= sum_of(s),
    decreases s.len(),
{
    if i == s.len() - 1 {
        lemma_sum_of_nonneg(s.drop_last());
    } else {
        lemma_sum_of_le(s.drop_last(), i);
        assert(s.drop_last()[i] == s[i]);
    }
}

/// Replacing one element changes the sum by the difference.
pub proof fn lemma_sum_of_update(s: Seq<u128>, i: int, v: u128)
    requires
        0 <= i < s.len(),
    ensures
        sum_of(s.update(i, v)) == sum_of(s) - s[i] + v,
    decreases s.len(),
{
    let t = s.update(i, v);
    if i == s.len() - 1 {
        assert(t.drop_last() =~= s.drop_last());
        assert(t.last() == v);
    } else {
        lemma_sum_of_update(s.drop_last(), i, v);
        assert(t.drop_last() =~= s.drop_last().update(i, v));
        assert(t.last() == s.last());
    }
}

/// Appending an element adds it to the sum.
pub proof fn lemma_sum_of_push(s: Seq<u128>, v: u128)
    ensures
        sum_of(s.push(v)) == sum_of(s) + v,
{
    assert(s.push(v).drop_last() =~= s);
    assert(s.push(v).last() == v);
}

/// Removing an element subtracts it from the sum.
pub proof fn lemma_sum_of_remove(s: Seq<u128>, i: int)
    requires
        0 <= i < s.len(),
    ensures
        sum_of(s.remove(i)) == sum_of(s) - s[i],
    decreases s.len(),
{
    if i == s.len() - 1 {
        assert(s.remove(i) =~= s.drop_last());
    } else {
        let t = s.remove(i);
        lemma_sum_of_remove(s.drop_last(), i);
        assert(t.drop_last() =~= s.drop_last().remove(i));
        assert(t.last() == s.last());
    }
}

/// Two distinct elements together are bounded by the sum.
pub proof fn lemma_sum_of_two(s: Seq<u128>, i: int, j: int)
    requires
        0 <= i < s.len(),
        0 <= j < s.len(),
        i != j,
    ensures
        s[i] + s[j] <= sum_of(s),
{
    let hi = if i > j {
        i
    } else {
        j
    };
    let lo = if i > j {
        j
    } else {
        i
    };
    lemma_sum_of_remove(s, hi);
    lemma_sum_of_le(s.remove(hi), lo);
    assert(s.remove(hi)[lo] == s[lo]);
}

/// The fungible-token ledger: every registered account's balance, the
/// maintained total-supply counter, and the storage-pricing configuration
/// the environment supplied at construction.
///
/// All mutation goes through the checked operations below; a failing call
/// leaves the ledger untouched.
#[derive(Debug)]
pub struct Ledger {
    pub(crate) ids: Vec<AccountId>,
    pub(crate) balances: Vec<u128>,
    pub(crate) total_supply: u128,
    pub(crate) byte_price: u128,
    pub(crate) account_bytes: u64,
    pub(crate) base_bytes: u64,
}

impl Ledger {
    /// The identifiers of the registered accounts, in ledger order.
    pub closed spec fn spec_accounts(self) -> Seq<Seq<u8>> {
        Seq::new(self.ids@.len(), |i: int| self.ids@[i]@)
    }

    /// The balances of the registered accounts, in ledger order.
    pub closed spec fn spec_balances(self) -> Seq<u128> {
        self.balances@
    }

    /// The maintained total-supply counter.
    pub closed spec fn spec_total_supply(self) -> u128 {
        self.total_supply
    }

    /// Payment units charged per byte of storage.
    pub closed spec fn spec_byte_price(self) -> u128 {
        self.byte_price
    }

    /// Marginal storage bytes consumed by one registered account.
    pub closed spec fn spec_account_bytes(self) -> u64 {
        self.account_bytes
    }

    /// Storage bytes consumed by the empty ledger.
    pub closed spec fn spec_base_bytes(self) -> u64 {
        self.base_bytes
    }

    /// How many accounts are registered.
    pub open spec fn spec_num_accounts(self) -> nat {
        self.spec_accounts().len()
    }

    /// Whether `id` has a ledger entry.
    pub open spec fn spec_registered(self, id: Seq<u8>) -> bool {
        exists|i: int| 0 <= i < self.spec_accounts().len() && self.spec_accounts()[i] == id
    }

    /// The position of `id`'s entry (meaningful only when registered).
    pub open spec fn spec_index_of(self, id: Seq<u8>) -> int {
        choose|i: int| 0 <= i < self.spec_accounts().len() && self.spec_accounts()[i] == id
    }

    /// The balance of `id`: its entry's balance, or 0 when unregistered.
    pub open spec fn spec_balance_of(self, id: Seq<u8>) -> u128 {
        if self.spec_registered(id) {
            self.spec_balances()[self.spec_index_of(id)]
        } else {
            0
        }
    }

    /// Required deposit for one account's storage: marginal bytes times
    /// byte price, as an unbounded integer.
    pub open spec fn spec_min_deposit(self) -> int {
        self.spec_account_bytes() as int * self.spec_byte_price() as int
    }

    /// Storage bytes the ledger occupies: a base cost plus a marginal
    /// cost per registered account.
    pub open spec fn spec_storage_usage(self) -> int {
        self.spec_base_bytes() as int + self.spec_num_accounts() as int
            * self.spec_account_bytes() as int
    }

    /// Ledger well-formedness: balances align with accounts, no account
    /// has two entries, every identifier is valid, the supply counter
    /// equals the sum of all balances, and the minimum deposit is
    /// representable.
    pub open spec fn wf(self) -> bool {
        &&& self.spec_accounts().len() == self.spec_balances().len()
        &&& forall|i: int, j: int|
            #![trigger self.spec_accounts()[i], self.spec_accounts()[j]]
            0 <= i < j < self.spec_accounts().len() ==> self.spec_accounts()[i]
                != self.spec_accounts()[j]
        &&& forall|i: int|
            0 <= i < self.spec_accounts().len() ==> is_valid_account_id(
                #[trigger] self.spec_accounts()[i],
            )
        &&& self.spec_total_supply() as int == sum_of(self.spec_balances())
        &&& self.spec_min_deposit() <= u128::MAX as int
    }

    /// A well-formed ledger's entry at a position determines registration,
    /// the position `spec_index_of` picks, and the balance.
    pub proof fn lemma_found(self, i: int, id: Seq<u8>)
        requires
            self.wf(),
            0 <= i < self.spec_accounts().len(),
            self.spec_accounts()[i] == id,
        ensures
            self.spec_registered(id),
            self.spec_index_of(id) == i,
            self.spec_balance_of(id) == self.spec_balances()[i],
    {
        assert(self.spec_registered(id));
        let j = self.spec_index_of(id);
        assert(0 <= j < self.spec_accounts().len() && self.spec_accounts()[j] == id);
        if j < i {
            assert(self.spec_accounts()[j] != self.spec_accounts()[i]);
            assert(false);
        } else if i < j {
            assert(self.spec_accounts()[i] != self.spec_accounts()[j]);
            assert(false);
        }
    }

    /// Crate-internal bridge between the ledger's fields and its model.
    pub(crate) proof fn lemma_repr(self)
        ensures
            self.spec_accounts().len() == self.ids@.len(),
            forall|i: int|
                0 <= i < self.ids@.len() ==> #[trigger] self.spec_accounts()[i] == self.ids@[i]@,
            self.spec_balances() == self.balances@,
            self.spec_total_supply() == self.total_supply,
            self.spec_byte_price() == self.byte_price,
            self.spec_account_bytes() == self.account_bytes,
            self.spec_base_bytes() == self.base_bytes,
    {
    }

    /// Position of `id`'s entry, if any: the contracts of all operations
    /// rest on this search.
    pub(crate) fn find_index(&self, id: &AccountId) -> (r: Option<usize>)
        ensures
            r matches Some(i) ==> (i < self.spec_accounts().len()
                && self.spec_accounts()[i as int] == id@),
            r is None ==> !self.spec_registered(id@),
            r is Some <==> self.spec_registered(id@),
    {
        let n = self.ids.len();
        let mut k: usize = 0;
        while k < n
            invariant
                n == self.ids@.len(),
                k <= n,
                forall|j: int| 0 <= j < k ==> self.spec_accounts()[j] != id@,
            decreases n - k,
        {
            if self.ids[k].eq_id(id) {
                proof {
                    assert(self.spec_accounts()[k as int] == id@);
                }
                return Some(k);
            }
            proof {
                assert(self.spec_accounts()[k as int] == self.ids@[k as int]@);
            }
            k += 1;
        }
        None
    }

    /// The total supply: an O(1) read of the maintained counter.
    pub fn total_supply(&self) -> (r: u128)
        ensures
            r == self.spec_total_supply(),
    {
        self.total_supply
    }

    /// How many accounts are registered.
    pub fn num_accounts(&self) -> (r: usize)
        ensures
            r == self.spec_num_accounts(),
    {
        self.ids.len()
    }

    /// Whether `id` has a ledger entry.
    pub fn is_registered(&self, id: &AccountId) -> (r: bool)
        ensures
            r == self.spec_registered(id@),
    {
        self.find_index(id).is_some()
    }

    /// The balance of `id`; 0 for an unregistered account — a read never
    /// fails.
    pub fn balance_of(&self, id: &AccountId) -> (r: u128)
        requires
            self.wf(),
        ensures
            r == self.spec_balance_of(id@),
            !self.spec_registered(id@) ==> r == 0,
    {
        match self.find_index(id) {
            Some(i) => {
                proof {
                    self.lemma_found(i as int, id@);
                }
                self.balances[i]
            },
            None => 0,
        }
    }

    /// The identifier registered at a position, in ledger order.
    pub fn account_at(&self, i: usize) -> (r: &AccountId)
        requires
            i < self.spec_num_accounts(),
        ensures
            r@ == self.spec_accounts()[i as int],
    {
        &self.ids[i]
    }

    /// The balance stored at a position, in ledger order.
    pub fn balance_at(&self, i: usize) -> (r: u128)
        requires
            self.wf(),
            i < self.spec_num_accounts(),
        ensures
            r == self.spec_balances()[i as int],
    {
        self.balances[i]
    }

    /// The configured byte price.
    pub fn byte_price(&self) -> (r: u128)
        ensures
            r == self.spec_byte_price(),
    {
        self.byte_price
    }

    /// The configured marginal bytes per account.
    pub fn account_bytes(&self) -> (r: u64)
        ensures
            r == self.spec_account_bytes(),
    {
        self.account_bytes
    }

    /// The configured base bytes.
    pub fn base_bytes(&self) -> (r: u64)
        ensures
            r == self.spec_base_bytes(),
    {
        self.base_bytes
    }
}

/// Relation between a ledger before and after a successful registration
/// of `id`: a fresh entry with balance 0 is appended and nothing else
/// changes.
pub open spec fn register_effect(pre: Ledger, post: Ledger, id: Seq<u8>) -> bool {
    &&& post.spec_accounts() == pre.spec_accounts().push(id)
    &&& post.spec_registered(id)
    &&& post.spec_balance_of(id) == 0
    &&& post.spec_total_supply() == pre.spec_total_supply()
    &&& post.spec_num_accounts() == pre.spec_num_accounts() + 1
    &&& forall|a: Seq<u8>| a != id ==> #[trigger] post.spec_registered(a) == pre.spec_registered(a)
    &&& forall|a: Seq<u8>| a != id ==> #[trigger] post.spec_balance_of(a) == pre.spec_balance_of(a)
    &&& same_config(pre, post)
}

/// Relation between a ledger before and after a successful deposit of
/// `amount` into `id`: that balance and the supply grow by `amount`.
pub open spec fn deposit_effect(pre: Ledger, post: Ledger, id: Seq<u8>, amount: u128) -> bool {
    &&& post.spec_accounts() == pre.spec_accounts()
    &&& forall|a: Seq<u8>| #[trigger] post.spec_registered(a) == pre.spec_registered(a)
    &&& post.spec_balance_of(id) as int == pre.spec_balance_of(id) + amount
    &&& post.spec_total_supply() as int == pre.spec_total_supply() + amount
    &&& forall|a: Seq<u8>| a != id ==> #[trigger] post.spec_balance_of(a) == pre.spec_balance_of(a)
    &&& same_config(pre, post)
}

/// Relation between a ledger before and after a successful withdrawal of
/// `amount` from `id`: that balance and the supply shrink by `amount`.
pub open spec fn withdraw_effect(pre: Ledger, post: Ledger, id: Seq<u8>, amount: u128) -> bool {
    &&& post.spec_accounts() == pre.spec_accounts()
    &&& forall|a: Seq<u8>| #[trigger] post.spec_registered(a) == pre.spec_registered(a)
    &&& post.spec_balance_of(id) as int == pre.spec_balance_of(id) - amount
    &&& post.spec_total_supply() as int == pre.spec_total_supply() - amount
    &&& forall|a: Seq<u8>| a != id ==> #[trigger] post.spec_balance_of(a) == pre.spec_balance_of(a)
    &&& same_config(pre, post)
}

/// Relation between a ledger before and after a successful transfer:
/// `amount` moves from `sender` to `receiver`; the supply, the set of
/// accounts and every other balance stay as they were.
pub open spec fn transfer_effect(
    pre: Ledger,
    post: Ledger,
    sender: Seq<u8>,
    receiver: Seq<u8>,
    amount: u128,
) -> bool {
    &&& post.spec_accounts() == pre.spec_accounts()
    &&& forall|a: Seq<u8>| #[trigger] post.spec_registered(a) == pre.spec_registered(a)
    &&& post.spec_balance_of(sender) as int == pre.spec_balance_of(sender) - amount
    &&& post.spec_balance_of(receiver) as int == pre.spec_balance_of(receiver) + amount
    &&& post.spec_total_supply() == pre.spec_total_supply()
    &&& forall|a: Seq<u8>|
        a != sender && a != receiver ==> #[trigger] post.spec_balance_of(a)
            == pre.spec_balance_of(a)
    &&& same_config(pre, post)
}

/// Relation between a ledger before and after a successful unregistration
/// of `id`: its entry is gone, `burned` (its prior balance) has left the
/// supply, and every other account is untouched.
pub open spec fn unregister_effect(pre: Ledger, post: Ledger, id: Seq<u8>, burned: u128) -> bool {
    &&& burned == pre.spec_balance_of(id)
    &&& post.spec_accounts() == pre.spec_accounts().remove(pre.spec_index_of(id))
    &&& !post.spec_registered(id)
    &&& post.spec_total_supply() as int == pre.spec_total_supply() - burned
    &&& post.spec_num_accounts() == pre.spec_num_accounts() - 1
    &&& forall|a: Seq<u8>| a != id ==> #[trigger] post.spec_registered(a) == pre.spec_registered(a)
    &&& forall|a: Seq<u8>| a != id ==> #[trigger] post.spec_balance_of(a) == pre.spec_balance_of(a)
    &&& same_config(pre, post)
}

/// The storage-pricing configuration is left as it was.
pub open spec fn same_config(pre: Ledger, post: Ledger) -> bool {
    &&& post.spec_byte_price() == pre.spec_byte_price()
    &&& post.spec_account_bytes() == pre.spec_account_bytes()
    &&& post.spec_base_bytes() == pre.spec_base_bytes()
}

/// Exactly when `internal_transfer` fails, and with which error: the
/// checks run in this order, and all of them precede any mutation.
pub open spec fn internal_transfer_error(
    pre: Ledger,
    sender: Seq<u8>,
    receiver: Seq<u8>,
    amount: u128,
) -> Option<Error> {
    if sender == receiver {
        Some(Error::SenderEqualsReceiver)
    } else if amount == 0 {
        Some(Error::ZeroAmount)
    } else if !pre.spec_registered(sender) {
        Some(Error::NotRegistered)
    } else if amount > pre.spec_balance_of(sender) {
        Some(Error::InsufficientBalance)
    } else if !pre.spec_registered(receiver) {
        Some(Error::NotRegistered)
    } else if pre.spec_balance_of(receiver) + amount > u128::MAX {
        Some(Error::Overflow)
    } else {
        None
    }
}

impl Ledger {
    /// One-time construction: registers `owner` and mints `total_supply`
    /// into its balance, under the given storage pricing. Fails only when
    /// the minimum storage deposit would not fit in 128 bits.
    pub fn new(
        owner: AccountId,
        total_supply: u128,
        byte_price: u128,
        account_bytes: u64,
        base_bytes: u64,
    ) -> (r: Result<(Ledger, MintEvent), Error>)
        requires
            owner.wf(),
        ensures
            account_bytes as int * byte_price as int > u128::MAX as int ==> r == Err::<
                (Ledger, MintEvent),
                Error,
            >(Error::Overflow),
            account_bytes as int * byte_price as int <= u128::MAX as int ==> (r matches Ok(p) && {
                let (l, ev) = p;
                &&& l.wf()
                &&& l.spec_registered(owner@)
                &&& l.spec_balance_of(owner@) == total_supply
                &&& l.spec_total_supply() == total_supply
                &&& l.spec_num_accounts() == 1
                &&& forall|a: Seq<u8>| a != owner@ ==> !(#[trigger] l.spec_registered(a))
                &&& l.spec_byte_price() == byte_price
                &&& l.spec_account_bytes() == account_bytes
                &&& l.spec_base_bytes() == base_bytes
                &&& ev.owner@ == owner@
                &&& ev.amount == total_supply
                &&& ev.memo matches Some(m) && m@ == "Initial tokens supply is minted"@
            }),
    {
        match checked_mul(account_bytes as u128, byte_price) {
            Err(_) => Err(Error::Overflow),
            Ok(_) => {
                let ev_owner = owner.duplicate();
                let mut ids: Vec<AccountId> = Vec::new();
                let mut balances: Vec<u128> = Vec::new();
                ids.push(owner);
                balances.push(total_supply);
                let l = Ledger {
                    ids,
                    balances,
                    total_supply,
                    byte_price,
                    account_bytes,
                    base_bytes,
                };
                proof {
                    assert(sum_of(l.spec_balances().drop_last()) == 0);
                    assert(l.spec_accounts()[0] == owner@);
                    l.lemma_found(0, owner@);
                    assert forall|a: Seq<u8>| a != owner@ implies !(#[trigger] l.spec_registered(
                        a,
                    )) by {
                        if l.spec_registered(a) {
                            let i = choose|i: int|
                                0 <= i < l.spec_accounts().len() && l.spec_accounts()[i] == a;
                            assert(i == 0);
                        }
                    }
                }
                let ev = MintEvent {
                    owner: ev_owner,
                    amount: total_supply,
                    memo: Some("Initial tokens supply is minted".to_owned()),
                };
                Ok((l, ev))
            },
        }
    }

    /// An empty ledger under the given storage pricing: no accounts and
    /// no supply. Fails only when the minimum storage deposit would not
    /// fit in 128 bits. Replaying registrations and deposits against it
    /// rebuilds any ledger state.
    pub fn empty(byte_price: u128, account_bytes: u64, base_bytes: u64) -> (r: Result<
        Ledger,
        Error,
    >)
        ensures
            account_bytes as int * byte_price as int > u128::MAX as int ==> r == Err::<
                Ledger,
                Error,
            >(Error::Overflow),
            account_bytes as int * byte_price as int <= u128::MAX as int ==> (r matches Ok(l) && {
                &&& l.wf()
                &&& l.spec_total_supply() == 0
                &&& l.spec_num_accounts() == 0
                &&& forall|a: Seq<u8>| !(#[trigger] l.spec_registered(a))
                &&& l.spec_byte_price() == byte_price
                &&& l.spec_account_bytes() == account_bytes
                &&& l.spec_base_bytes() == base_bytes
            }),
    {
        match checked_mul(account_bytes as u128, byte_price) {
            Err(_) => Err(Error::Overflow),
            Ok(_) => {
                let l = Ledger {
                    ids: Vec::new(),
                    balances: Vec::new(),
                    total_supply: 0,
                    byte_price,
                    account_bytes,
                    base_bytes,
                };
                proof {
                    assert(l.spec_balances() =~= Seq::<u128>::empty());
                    assert(sum_of(l.spec_balances()) == 0);
                }
                Ok(l)
            },
        }
    }

    /// Creates a zero-balance entry for `id`; fails when one exists.
    pub fn internal_register(&mut self, id: &AccountId) -> (r: Result<(), Error>)
        requires
            old(self).wf(),
            id.wf(),
        ensures
            final(self).wf(),
            old(self).spec_registered(id@) ==> (r == Err::<(), Error>(Error::AlreadyRegistered)
                && *final(self) == *old(self)),
            !old(self).spec_registered(id@) ==> (r == Ok::<(), Error>(()) && register_effect(
                *old(self),
                *final(self),
                id@,
            )),
    {
        if self.find_index(id).is_some() {
            return Err(Error::AlreadyRegistered);
        }
        let dup = id.duplicate();
        self.ids.push(dup);
        self.balances.push(0);
        proof {
            let pre = *old(self);
            let post = *self;
            let n = pre.spec_accounts().len() as int;
            assert(post.spec_accounts() =~= pre.spec_accounts().push(id@));
            assert(post.spec_balances() =~= pre.spec_balances().push(0u128));
            lemma_sum_of_push(pre.spec_balances(), 0u128);
            assert forall|i: int, j: int|
                0 <= i < j < post.spec_accounts().len() implies #[trigger] post.spec_accounts()[i]
                != #[trigger] post.spec_accounts()[j] by {
                if j == n {
                    if pre.spec_accounts()[i] == id@ {
                        assert(pre.spec_registered(id@));
                    }
                }
            }
            assert(post.wf());
            assert(post.spec_accounts()[n] == id@);
            post.lemma_found(n, id@);
            assert forall|a: Seq<u8>| a != id@ implies #[trigger] post.spec_registered(a)
                == pre.spec_registered(a) by {
                if pre.spec_registered(a) {
                    let i = choose|i: int|
                        0 <= i < pre.spec_accounts().len() && pre.spec_accounts()[i] == a;
                    assert(post.spec_accounts()[i] == a);
                }
                if post.spec_registered(a) {
                    let i = choose|i: int|
                        0 <= i < post.spec_accounts().len() && post.spec_accounts()[i] == a;
                    assert(i < n);
                    assert(pre.spec_accounts()[i] == a);
                }
            }
            assert forall|a: Seq<u8>| a != id@ implies #[trigger] post.spec_balance_of(a)
                == pre.spec_balance_of(a) by {
                if pre.spec_registered(a) {
                    let i = pre.spec_index_of(a);
                    pre.lemma_found(i, a);
                    assert(post.spec_accounts()[i] == a);
                    post.lemma_found(i, a);
                }
            }
        }
        Ok(())
    }

    /// Increases `id`'s balance and the supply by `amount`, both through
    /// checked addition; fails on a missing entry or on overflow, leaving
    /// the ledger untouched.
    pub fn internal_deposit(&mut self, id: &AccountId, amount: u128) -> (r: Result<(), Error>)
        requires
            old(self).wf(),
        ensures
            final(self).wf(),
            !old(self).spec_registered(id@) ==> (r == Err::<(), Error>(Error::NotRegistered)
                && *final(self) == *old(self)),
            old(self).spec_registered(id@) && old(self).spec_total_supply() + amount > u128::MAX
                ==> (r == Err::<(), Error>(Error::Overflow) && *final(self) == *old(self)),
            old(self).spec_registered(id@) && old(self).spec_total_supply() + amount <= u128::MAX
                ==> (r == Ok::<(), Error>(()) && deposit_effect(
                *old(self),
                *final(self),
                id@,
                amount,
            )),
    {
        let i = match self.find_index(id) {
            None => {
                return Err(Error::NotRegistered);
            },
            Some(i) => i,
        };
        proof {
            self.lemma_found(i as int, id@);
        }
        let new_supply = match checked_add(self.total_supply, amount) {
            Err(_) => {
                return Err(Error::Overflow);
            },
            Ok(v) => v,
        };
        let b = self.balances[i];
        proof {
            lemma_sum_of_le(self.spec_balances(), i as int);
        }
        let nb = b + amount;
        self.balances[i] = nb;
        self.total_supply = new_supply;
        proof {
            let pre = *old(self);
            let post = *self;
            assert(post.spec_accounts() =~= pre.spec_accounts());
            assert(post.spec_balances() == pre.spec_balances().update(i as int, nb));
            lemma_sum_of_update(pre.spec_balances(), i as int, nb);
            assert(post.wf());
            post.lemma_found(i as int, id@);
            assert forall|a: Seq<u8>| #[trigger] post.spec_registered(a) == pre.spec_registered(
                a,
            ) by {}
            assert forall|a: Seq<u8>| a != id@ implies #[trigger] post.spec_balance_of(a)
                == pre.spec_balance_of(a) by {
                assert(post.spec_registered(a) == pre.spec_registered(a));
                if pre.spec_registered(a) {
                    let k = pre.spec_index_of(a);
                    pre.lemma_found(k, a);
                    post.lemma_found(k, a);
                    assert(k != i as int);
                }
            }
        }
        Ok(())
    }

    /// Decreases `id`'s balance and the supply by `amount`, both through
    /// checked subtraction; fails on a missing entry or a short balance,
    /// leaving the ledger untouched.
    pub fn internal_withdraw(&mut self, id: &AccountId, amount: u128) -> (r: Result<(), Error>)
        requires
            old(self).wf(),
        ensures
            final(self).wf(),
            !old(self).spec_registered(id@) ==> (r == Err::<(), Error>(Error::NotRegistered)
                && *final(self) == *old(self)),
            old(self).spec_registered(id@) && amount > old(self).spec_balance_of(id@) ==> (r
                == Err::<(), Error>(Error::InsufficientBalance) && *final(self) == *old(self)),
            old(self).spec_registered(id@) && amount <= old(self).spec_balance_of(id@) ==> (r
                == Ok::<(), Error>(()) && withdraw_effect(*old(self), *final(self), id@, amount)),
    {
        let i = match self.find_index(id) {
            None => {
                return Err(Error::NotRegistered);
            },
            Some(i) => i,
        };
        proof {
            self.lemma_found(i as int, id@);
        }
        let b = self.balances[i];
        if amount > b {
            return Err(Error::InsufficientBalance);
        }
        proof {
            lemma_sum_of_le(self.spec_balances(), i as int);
        }
        let nb = match checked_sub(b, amount) {
            Err(_) => {
                proof {
                    assert(false);
                }
                return Err(Error::Underflow);
            },
            Ok(v) => v,
        };
        let new_supply = match checked_sub(self.total_supply, amount) {
            Err(_) => {
                proof {
                    assert(false);
                }
                return Err(Error::Underflow);
            },
            Ok(v) => v,
        };
        self.balances[i] = nb;
        self.total_supply = new_supply;
        proof {
            let pre = *old(self);
            let post = *self;
            assert(post.spec_accounts() =~= pre.spec_accounts());
            assert(post.spec_balances() == pre.spec_balances().update(i as int, nb));
            lemma_sum_of_update(pre.spec_balances(), i as int, nb);
            assert(post.wf());
            post.lemma_found(i as int, id@);
            assert forall|a: Seq<u8>| #[trigger] post.spec_registered(a) == pre.spec_registered(
                a,
            ) by {}
            assert forall|a: Seq<u8>| a != id@ implies #[trigger] post.spec_balance_of(a)
                == pre.spec_balance_of(a) by {
                assert(post.spec_registered(a) == pre.spec_registered(a));
                if pre.spec_registered(a) {
                    let k = pre.spec_index_of(a);
                    pre.lemma_found(k, a);
                    post.lemma_found(k, a);
                    assert(k != i as int);
                }
            }
        }
        Ok(())
    }

    /// Atomic move of `amount` from `sender` to `receiver`: all checks
    /// run before either balance changes, so a failure leaves the ledger
    /// exactly as it was.
    pub fn internal_transfer(
        &mut self,
        sender: &AccountId,
        receiver: &AccountId,
        amount: u128,
    ) -> (r: Result<(), Error>)
        requires
            old(self).wf(),
        ensures
            final(self).wf(),
            r matches Err(e) ==> (Some(e) == internal_transfer_error(
                *old(self),
                sender@,
                receiver@,
                amount,
            ) && *final(self) == *old(self)),
            r is Ok ==> (internal_transfer_error(*old(self), sender@, receiver@, amount) is None
                && transfer_effect(*old(self), *final(self), sender@, receiver@, amount)),
    {
        if sender.eq_id(receiver) {
            return Err(Error::SenderEqualsReceiver);
        }
        if amount == 0 {
            return Err(Error::ZeroAmount);
        }
        let sender_balance = match self.find_index(sender) {
            None => {
                return Err(Error::NotRegistered);
            },
            Some(i) => {
                proof {
                    self.lemma_found(i as int, sender@);
                }
                self.balances[i]
            },
        };
        if amount > sender_balance {
            return Err(Error::InsufficientBalance);
        }
        let receiver_balance = match self.find_index(receiver) {
            None => {
                return Err(Error::NotRegistered);
            },
            Some(j) => {
                proof {
                    self.lemma_found(j as int, receiver@);
                }
                self.balances[j]
            },
        };
        if receiver_balance > u128::MAX - amount {
            return Err(Error::Overflow);
        }
        let ghost pre = *self;
        match self.internal_withdraw(sender, amount) {
            Err(_) => {
                proof {
                    assert(false);
                }
                return Err(Error::Underflow);
            },
            Ok(_) => {},
        }
        let ghost mid = *self;
        match self.internal_deposit(receiver, amount) {
            Err(_) => {
                proof {
                    assert(false);
                }
                return Err(Error::Overflow);
            },
            Ok(_) => {},
        }
        proof {
            let post = *self;
            assert(transfer_effect(pre, post, sender@, receiver@, amount));
        }
        Ok(())
    }
}

} // verus!
