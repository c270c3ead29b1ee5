use vstd::prelude::*;

use crate::account::AccountId;
use crate::account::is_valid_account_id;
use crate::error::Error;
use crate::events::BurnEvent;
use crate::events::TransferEvent;
use crate::ledger::Ledger;
use crate::ledger::internal_transfer_error;
use crate::ledger::transfer_effect;
use crate::ledger::withdraw_effect;

verus! {

/// Exactly when `transfer` fails, and with which error: the checks run
/// in this order, and all of them precede any mutation.
pub open spec fn transfer_error(
    pre: Ledger,
    sender: Seq<u8>,
    receiver: Seq<u8>,
    amount: u128,
    attached_payment: u128,
) -> Option<Error> {
    if attached_payment < 1 {
        Some(Error::RequiresPayment)
    } else if !pre.spec_registered(receiver) {
        Some(Error::ReceiverNotRegistered)
    } else {
        internal_transfer_error(pre, sender, receiver, amount)
    }
}

/// A continuation token handed out by `transfer_and_notify`: the
/// committed move it may later have to compensate. The environment holds
/// it across the receiver-notification boundary and brings it back to
/// `resolve_transfer`.
#[derive(Debug)]
pub struct PendingTransfer {
    sender: AccountId,
    receiver: AccountId,
    amount: u128,
}

impl PendingTransfer {
    /// Rebuilds a token from its durable record — the environment keeps
    /// the three fields across the notification boundary — rejecting a
    /// pair that names one account twice.
    pub fn new(sender: AccountId, receiver: AccountId, amount: u128) -> (r: Result<
        PendingTransfer,
        Error,
    >)
        requires
            sender.wf(),
            receiver.wf(),
        ensures
            sender@ != receiver@ ==> (r matches Ok(p) && p.wf() && p.spec_sender() == sender@
                && p.spec_receiver() == receiver@ && p.spec_amount() == amount),
            sender@ == receiver@ ==> r == Err::<PendingTransfer, Error>(
                Error::SenderEqualsReceiver,
            ),
    {
        if sender.eq_id(&receiver) {
            Err(Error::SenderEqualsReceiver)
        } else {
            Ok(PendingTransfer { sender, receiver, amount })
        }
    }

    /// The original sender.
    pub closed spec fn spec_sender(self) -> Seq<u8> {
        self.sender@
    }

    /// The original receiver.
    pub closed spec fn spec_receiver(self) -> Seq<u8> {
        self.receiver@
    }

    /// The amount the committed transfer moved.
    pub closed spec fn spec_amount(self) -> u128 {
        self.amount
    }

    /// Tokens are only ever built from a committed transfer, so the two
    /// parties are distinct valid identifiers.
    pub open spec fn wf(self) -> bool {
        &&& self.spec_sender() != self.spec_receiver()
        &&& is_valid_account_id(self.spec_sender())
        &&& is_valid_account_id(self.spec_receiver())
    }

    /// The original sender.
    pub fn sender(&self) -> (r: &AccountId)
        ensures
            r@ == self.spec_sender(),
    {
        &self.sender
    }

    /// The original receiver.
    pub fn receiver(&self) -> (r: &AccountId)
        ensures
            r@ == self.spec_receiver(),
    {
        &self.receiver
    }

    /// The amount the committed transfer moved.
    pub fn amount(&self) -> (r: u128)
        ensures
            r == self.spec_amount(),
    {
        self.amount
    }
}

/// What resolving a pending transfer hands back: how much of the sent
/// amount the receiver kept, and the compensating records, if any.
#[derive(Debug)]
pub struct ResolveOutcome {
    pub used_amount: u128,
    pub reversal: Option<TransferEvent>,
    pub burn: Option<BurnEvent>,
}

/// The smaller of two amounts.
pub open spec fn spec_min_u128(a: u128, b: u128) -> u128 {
    if a < b {
        a
    } else {
        b
    }
}

/// How much `resolve_transfer` gives back: the callback's reported
/// unused amount, capped by what was actually sent and by what the
/// receiver still holds.
pub open spec fn spec_resolve_refund(pre: Ledger, t: PendingTransfer, unused_amount: u128) -> u128 {
    spec_min_u128(
        spec_min_u128(unused_amount, t.spec_amount()),
        pre.spec_balance_of(t.spec_receiver()),
    )
}

impl Ledger {
    /// The transfer protocol: demands a minimal attached payment, a
    /// registered receiver distinct from the sender and a positive
    /// amount, then moves the amount atomically. On success the returned
    /// record is the event to emit; on failure the ledger is exactly as
    /// it was.
    pub fn transfer(
        &mut self,
        sender: &AccountId,
        receiver: &AccountId,
        amount: u128,
        memo: Option<String>,
        attached_payment: u128,
    ) -> (r: Result<TransferEvent, Error>)
        requires
            old(self).wf(),
        ensures
            final(self).wf(),
            r matches Err(e) ==> (Some(e) == transfer_error(
                *old(self),
                sender@,
                receiver@,
                amount,
                attached_payment,
            ) && *final(self) == *old(self)),
            r matches Ok(ev) ==> (transfer_error(
                *old(self),
                sender@,
                receiver@,
                amount,
                attached_payment,
            ) is None && transfer_effect(*old(self), *final(self), sender@, receiver@, amount)
                && ev.sender@ == sender@ && ev.receiver@ == receiver@ && ev.amount == amount
                && ev.memo == memo),
    {
        if attached_payment < 1 {
            return Err(Error::RequiresPayment);
        }
        if !self.is_registered(receiver) {
            return Err(Error::ReceiverNotRegistered);
        }
        match self.internal_transfer(sender, receiver, amount) {
            Err(e) => Err(e),
            Ok(_) => Ok(
                TransferEvent {
                    sender: sender.duplicate(),
                    receiver: receiver.duplicate(),
                    amount,
                    memo,
                },
            ),
        }
    }

    /// Phase one of the notify flow: commits the transfer exactly as
    /// `transfer` does and additionally returns the continuation token
    /// that phase two (`resolve_transfer`) consumes once the receiver's
    /// acceptance verdict is known.
    pub fn transfer_and_notify(
        &mut self,
        sender: &AccountId,
        receiver: &AccountId,
        amount: u128,
        memo: Option<String>,
        attached_payment: u128,
    ) -> (r: Result<(TransferEvent, PendingTransfer), Error>)
        requires
            old(self).wf(),
            sender.wf(),
            receiver.wf(),
        ensures
            final(self).wf(),
            r matches Err(e) ==> (Some(e) == transfer_error(
                *old(self),
                sender@,
                receiver@,
                amount,
                attached_payment,
            ) && *final(self) == *old(self)),
            r matches Ok(p) ==> (transfer_error(
                *old(self),
                sender@,
                receiver@,
                amount,
                attached_payment,
            ) is None && transfer_effect(*old(self), *final(self), sender@, receiver@, amount)
                && p.0.sender@ == sender@ && p.0.receiver@ == receiver@ && p.0.amount == amount
                && p.0.memo == memo && p.1.wf() && p.1.spec_sender() == sender@
                && p.1.spec_receiver() == receiver@ && p.1.spec_amount() == amount),
    {
        match self.transfer(sender, receiver, amount, memo, attached_payment) {
            Err(e) => Err(e),
            Ok(ev) => {
                let pending = PendingTransfer {
                    sender: sender.duplicate(),
                    receiver: receiver.duplicate(),
                    amount,
                };
                Ok((ev, pending))
            },
        }
    }

    /// Phase two of the notify flow, run after the receiver's callback
    /// reported `unused_amount`: gives back the lesser of the reported
    /// unused amount and what was sent, further capped by what the
    /// receiver still holds. The returned tokens go back to the sender,
    /// or leave the supply as a burn when the sender has unregistered in
    /// the meantime. `used_amount` is what the receiver definitively
    /// kept.
    pub fn resolve_transfer(&mut self, pending: &PendingTransfer, unused_amount: u128) -> (out:
        ResolveOutcome)
        requires
            old(self).wf(),
            pending.wf(),
        ensures
            final(self).wf(),
            ({
                let refund = spec_resolve_refund(*old(self), *pending, unused_amount);
                &&& out.used_amount as int == pending.spec_amount() - refund
                &&& (refund == 0 ==> (*final(self) == *old(self) && out.reversal is None
                    && out.burn is None))
                &&& (refund > 0 && old(self).spec_registered(pending.spec_sender()) ==> (
                transfer_effect(
                    *old(self),
                    *final(self),
                    pending.spec_receiver(),
                    pending.spec_sender(),
                    refund,
                ) && (out.reversal matches Some(ev) && ev.sender@ == pending.spec_receiver()
                    && ev.receiver@ == pending.spec_sender() && ev.amount == refund && (
                ev.memo matches Some(m) && m@ == "refund"@)) && out.burn is None))
                &&& (refund > 0 && !old(self).spec_registered(pending.spec_sender()) ==> (
                withdraw_effect(*old(self), *final(self), pending.spec_receiver(), refund) && (
                out.burn matches Some(b) && b.owner@ == pending.spec_receiver() && b.amount
                    == refund && b.memo is None) && out.reversal is None))
            }),
    {
        let claim = if unused_amount < pending.amount {
            unused_amount
        } else {
            pending.amount
        };
        let receiver_balance = self.balance_of(&pending.receiver);
        let refund = if claim < receiver_balance {
            claim
        } else {
            receiver_balance
        };
        if refund == 0 {
            return ResolveOutcome { used_amount: pending.amount, reversal: None, burn: None };
        }
        let ghost pre = *self;
        match self.internal_withdraw(&pending.receiver, refund) {
            Err(_) => {
                proof {
                    assert(false);
                }
                return ResolveOutcome { used_amount: pending.amount, reversal: None, burn: None };
            },
            Ok(_) => {},
        }
        if self.is_registered(&pending.sender) {
            match self.internal_deposit(&pending.sender, refund) {
                Err(_) => {
                    proof {
                        assert(false);
                    }
                    return ResolveOutcome {
                        used_amount: pending.amount,
                        reversal: None,
                        burn: None,
                    };
                },
                Ok(_) => {},
            }
            proof {
                assert(transfer_effect(
                    pre,
                    *self,
                    pending.spec_receiver(),
                    pending.spec_sender(),
                    refund,
                ));
            }
            let ev = TransferEvent {
                sender: pending.receiver.duplicate(),
                receiver: pending.sender.duplicate(),
                amount: refund,
                memo: Some("refund".to_owned()),
            };
            ResolveOutcome { used_amount: pending.amount - refund, reversal: Some(ev), burn: None }
        } else {
            let b = BurnEvent { owner: pending.receiver.duplicate(), amount: refund, memo: None };
            ResolveOutcome { used_amount: pending.amount - refund, reversal: None, burn: Some(b) }
        }
    }
}

} // verus!
