use vstd::prelude::*;

use crate::state::{card_step, card_wf, lemma_redeem, LedgerState};
use crate::types::{Address, FlexiGiftError};

verus! {

/// The sum of a sequence of amounts.
pub open spec fn total(amounts: Seq<u128>) -> int
    decreases amounts.len(),
{
    if amounts.len() == 0 {
        0
    } else {
        total(amounts.drop_last()) + amounts.last()
    }
}

/// `states` runs from its first state through one successful redemption of
/// `amounts[i]` from card `id` after another.
pub open spec fn redemption_run(states: Seq<LedgerState>, amounts: Seq<u128>, id: u64) -> bool {
    &&& states.len() == amounts.len() + 1
    &&& forall|i: int|
        0 <= i < amounts.len() ==> #[trigger] states[i].redeemed(states[i + 1], id, amounts[i])
}

/// A card is full and active right after it has been created.
pub proof fn lemma_new_card_is_full(
    s: LedgerState,
    caller: Address,
    now: u64,
    amount: u128,
    expiry_days: u64,
    merchants: Seq<u64>,
    message: Seq<char>,
)
    ensures
        ({
            let t = s.after_create(caller, now, amount, expiry_days, merchants, message);
            let c = t.card(s.cards.len() + 1 as int);
            &&& t.has_card(s.cards.len() + 1 as int)
            &&& c.remaining_balance == c.amount
            &&& c.amount == amount
            &&& c.is_active
        }),
{
}

proof fn lemma_redemption_prefix(states: Seq<LedgerState>, amounts: Seq<u128>, id: u64, k: int)
    requires
        redemption_run(states, amounts, id),
        states[0].wf(),
        states[0].has_card(id as int),
        0 <= k <= amounts.len(),
    ensures
        states[k].wf(),
        states[k].has_card(id as int),
        states[k].card(id as int).amount == states[0].card(id as int).amount,
        states[k].card(id as int).remaining_balance == states[0].card(id as int).remaining_balance
            - total(amounts.take(k)),
    decreases k,
{
    if k == 0 {
        assert(amounts.take(0) =~= Seq::<u128>::empty());
    } else {
        lemma_redemption_prefix(states, amounts, id, k - 1);
        let j = k - 1;
        assert(states[j].redeemed(states[j + 1], id, amounts[j]));
        lemma_redeem(states[k - 1], id, amounts[k - 1]);
        assert(amounts.take(k).drop_last() =~= amounts.take(k - 1));
    }
}

/// Along any run of successful redemptions from one card, the balance never
/// grows, and the amounts taken add up to what the balance fell by, which is
/// at most the card's original amount.
pub proof fn lemma_redemptions_bounded(states: Seq<LedgerState>, amounts: Seq<u128>, id: u64)
    requires
        redemption_run(states, amounts, id),
        states[0].wf(),
        states[0].has_card(id as int),
    ensures
        forall|i: int|
            0 <= i < amounts.len() ==> #[trigger] states[i + 1].card(id as int).remaining_balance
                <= states[i].card(id as int).remaining_balance,
        total(amounts) == states[0].card(id as int).remaining_balance - states.last().card(
            id as int,
        ).remaining_balance,
        total(amounts) <= states[0].card(id as int).amount,
{
    assert forall|i: int|
        0 <= i < amounts.len() implies #[trigger] states[i + 1].card(id as int).remaining_balance
        <= states[i].card(id as int).remaining_balance by {
        assert(states[i].redeemed(states[i + 1], id, amounts[i]));
    }
    lemma_redemption_prefix(states, amounts, id, amounts.len() as int);
    assert(amounts.take(amounts.len() as int) =~= amounts);
    let k = id - 1;
    assert(card_wf(states[0].cards[k], k + 1));
}

/// Once a card's balance is zero it stays zero and the card stays inactive,
/// whatever operations follow, and every later redemption from it fails:
/// with `GiftCardInactive` unless the ledger is paused.
pub proof fn lemma_exhausted_is_terminal(
    s: LedgerState,
    t: LedgerState,
    id: u64,
    amount: u128,
    merchant: u64,
    now: u64,
)
    requires
        s.wf(),
        t.wf(),
        s.has_card(id as int),
        s.card(id as int).remaining_balance == 0,
        s.steps_to(t),
    ensures
        t.has_card(id as int),
        t.card(id as int).remaining_balance == 0,
        !t.card(id as int).is_active,
        t.redeem_error(id, amount, merchant, now) is Some,
        !t.paused ==> t.redeem_error(id, amount, merchant, now) == Some(
            FlexiGiftError::GiftCardInactive,
        ),
{
    let k = id - 1;
    assert(card_step(s.cards[k], t.cards[k]));
    assert(card_wf(t.cards[k], k + 1));
}

/// A redemption after the expiry fails with `GiftCardExpired` whatever the
/// balance, on an open ledger and an active card.
pub proof fn lemma_expired_redeem_fails(
    s: LedgerState,
    id: u64,
    amount: u128,
    merchant: u64,
    now: u64,
)
    requires
        !s.paused,
        s.has_card(id as int),
        s.card(id as int).is_active,
        now > s.card(id as int).expiry_timestamp,
    ensures
        s.redeem_error(id, amount, merchant, now) == Some(FlexiGiftError::GiftCardExpired),
{
}

/// A refund by the giver up to and including the expiry fails with
/// `InvalidExpiry`; a refund by anyone else fails with `Unauthorized`.
pub proof fn lemma_refund_guards(s: LedgerState, id: u64, caller: Address, now: u64)
    requires
        s.has_card(id as int),
    ensures
        caller == s.card(id as int).giver && now <= s.card(id as int).expiry_timestamp
            ==> s.refund_error(id, caller, now) == Some(FlexiGiftError::InvalidExpiry),
        caller != s.card(id as int).giver ==> s.refund_error(id, caller, now) == Some(
            FlexiGiftError::Unauthorized,
        ),
{
}

/// A redemption at a merchant outside the card's list fails with
/// `MerchantNotAllowed`, even when the ledger is open, the card active and
/// unexpired, and the balance sufficient.
pub proof fn lemma_unlisted_merchant_fails(
    s: LedgerState,
    id: u64,
    amount: u128,
    merchant: u64,
    now: u64,
)
    requires
        !s.paused,
        s.has_card(id as int),
        s.card(id as int).is_active,
        now <= s.card(id as int).expiry_timestamp,
        amount <= s.card(id as int).remaining_balance,
        !s.card(id as int).allowed_merchants.contains(merchant),
    ensures
        s.redeem_error(id, amount, merchant, now) == Some(FlexiGiftError::MerchantNotAllowed),
{
}

/// Registering merchants is reserved to the owner: anyone else is refused
/// with `Unauthorized`, and the owner is never refused. The identifier that a
/// registration hands out is larger than that of any earlier registration,
/// whatever happened in between.
pub proof fn lemma_merchant_ids_increase(
    s0: LedgerState,
    s1: LedgerState,
    s2: LedgerState,
    name: Seq<char>,
    id1: u64,
    id2: u64,
    caller: Address,
)
    requires
        s1 == s0.after_add_merchant(name),
        id1 == s0.merchants.len() + 1,
        s1.steps_to(s2),
        id2 == s2.merchants.len() + 1,
    ensures
        id1 < id2,
        s2.owner_error(caller) is None <==> caller == s2.owner,
        caller != s2.owner ==> s2.owner_error(caller) == Some(FlexiGiftError::Unauthorized),
{
}

} // verus!
