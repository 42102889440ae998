use vstd::prelude::*;
use vstd::utf8::encode_utf8;

use crate::types::{Address, CardView, FlexiGiftError};

verus! {

/// Seconds in one day, the unit of a card's lifetime.
pub const SECONDS_PER_DAY: u64 = 86400;

/// Largest accepted message, in bytes of its UTF-8 encoding.
pub const MAX_MESSAGE_BYTES: usize = 280;

/// The abstract state of the ledger. Card `id` sits at `cards[id - 1]`,
/// merchant `id` at `merchants[id - 1]`.
pub struct LedgerState {
    pub initialized: bool,
    pub owner: Address,
    pub token: Address,
    pub paused: bool,
    pub cards: Seq<CardView>,
    pub merchants: Seq<Seq<char>>,
}

/// The invariant of one stored card that carries identifier `id`.
pub open spec fn card_wf(c: CardView, id: int) -> bool {
    &&& c.id == id
    &&& c.amount > 0
    &&& c.remaining_balance <= c.amount
    &&& c.is_active <==> c.remaining_balance > 0
}

/// How a stored card may change: its fixed fields stay, its balance does not
/// grow, and an exhausted card stays exhausted.
pub open spec fn card_step(a: CardView, b: CardView) -> bool {
    &&& b.id == a.id
    &&& b.giver == a.giver
    &&& b.amount == a.amount
    &&& b.expiry_timestamp == a.expiry_timestamp
    &&& b.created_at == a.created_at
    &&& b.message == a.message
    &&& b.allowed_merchants == a.allowed_merchants
    &&& b.remaining_balance <= a.remaining_balance
    &&& (a.remaining_balance == 0 ==> b.remaining_balance == 0)
}

/// The expiry of a card made at `now` that lives `expiry_days` days.
pub open spec fn expiry_of(now: u64, expiry_days: u64) -> int {
    now + expiry_days * SECONDS_PER_DAY
}

/// Whether a message is over the length bound.
pub open spec fn message_too_long(message: Seq<char>) -> bool {
    encode_utf8(message).len() > MAX_MESSAGE_BYTES
}

impl LedgerState {
    pub open spec fn wf(self) -> bool {
        forall|i: int| 0 <= i < self.cards.len() ==> #[trigger] card_wf(self.cards[i], i + 1)
    }

    pub open spec fn has_card(self, id: int) -> bool {
        1 <= id <= self.cards.len()
    }

    pub open spec fn card(self, id: int) -> CardView {
        self.cards[id - 1]
    }

    /// Every state reachable from `self` by operations of the ledger relates
    /// to it so: no card or merchant disappears and every card takes a step.
    pub open spec fn steps_to(self, post: LedgerState) -> bool {
        &&& self.cards.len() <= post.cards.len()
        &&& self.merchants.len() <= post.merchants.len()
        &&& post.merchants.subrange(0, self.merchants.len() as int) == self.merchants
        &&& forall|i: int|
            0 <= i < self.cards.len() ==> #[trigger] card_step(self.cards[i], post.cards[i])
    }

    /// The first check that rejects a new card, if any.
    pub open spec fn create_error(self, amount: u128, expiry_days: u64, message: Seq<char>) -> Option<
        FlexiGiftError,
    > {
        if self.paused {
            Some(FlexiGiftError::Paused)
        } else if amount == 0 {
            Some(FlexiGiftError::InvalidAmount)
        } else if expiry_days == 0 {
            Some(FlexiGiftError::InvalidExpiry)
        } else if message_too_long(message) {
            Some(FlexiGiftError::MessageTooLong)
        } else {
            None
        }
    }

    /// The state after a new card has been stored.
    pub open spec fn after_create(
        self,
        caller: Address,
        now: u64,
        amount: u128,
        expiry_days: u64,
        merchants: Seq<u64>,
        message: Seq<char>,
    ) -> LedgerState {
        let c = CardView {
            id: (self.cards.len() + 1) as u64,
            giver: caller,
            amount,
            remaining_balance: amount,
            expiry_timestamp: expiry_of(now, expiry_days) as u128,
            is_active: true,
            created_at: now,
            message,
            allowed_merchants: merchants,
        };
        LedgerState { cards: self.cards.push(c), ..self }
    }

    /// The first check that rejects a redemption, if any, in the order
    /// pause, existence, activity, expiry, balance, merchant.
    pub open spec fn redeem_error(self, id: u64, amount: u128, merchant: u64, now: u64) -> Option<
        FlexiGiftError,
    > {
        if self.paused {
            Some(FlexiGiftError::Paused)
        } else if !self.has_card(id as int) {
            Some(FlexiGiftError::GiftCardNotFound)
        } else if !self.card(id as int).is_active {
            Some(FlexiGiftError::GiftCardInactive)
        } else if now > self.card(id as int).expiry_timestamp {
            Some(FlexiGiftError::GiftCardExpired)
        } else if amount > self.card(id as int).remaining_balance {
            Some(FlexiGiftError::InsufficientBalance)
        } else if !self.card(id as int).allowed_merchants.contains(merchant) {
            Some(FlexiGiftError::MerchantNotAllowed)
        } else {
            None
        }
    }

    /// The state after `amount` has been taken from card `id`.
    pub open spec fn after_redeem(self, id: u64, amount: u128) -> LedgerState {
        let c = self.card(id as int);
        let rest = (c.remaining_balance - amount) as u128;
        let d = CardView { remaining_balance: rest, is_active: rest != 0, ..c };
        LedgerState { cards: self.cards.update(id - 1, d), ..self }
    }

    /// `post` is `self` after a successful redemption of `amount` from card `id`.
    pub open spec fn redeemed(self, post: LedgerState, id: u64, amount: u128) -> bool {
        &&& self.has_card(id as int)
        &&& self.card(id as int).is_active
        &&& amount <= self.card(id as int).remaining_balance
        &&& post == self.after_redeem(id, amount)
    }

    /// The first check that rejects a refund, if any.
    pub open spec fn refund_error(self, id: u64, caller: Address, now: u64) -> Option<
        FlexiGiftError,
    > {
        if !self.has_card(id as int) {
            Some(FlexiGiftError::GiftCardNotFound)
        } else if caller != self.card(id as int).giver {
            Some(FlexiGiftError::Unauthorized)
        } else if now <= self.card(id as int).expiry_timestamp {
            Some(FlexiGiftError::InvalidExpiry)
        } else {
            None
        }
    }

    /// The state after card `id` has been refunded to its giver.
    pub open spec fn after_refund(self, id: u64) -> LedgerState {
        let c = self.card(id as int);
        let d = CardView { remaining_balance: 0, is_active: false, ..c };
        LedgerState { cards: self.cards.update(id - 1, d), ..self }
    }

    /// Rejects a caller other than the owner.
    pub open spec fn owner_error(self, caller: Address) -> Option<FlexiGiftError> {
        if caller != self.owner {
            Some(FlexiGiftError::Unauthorized)
        } else {
            None
        }
    }

    /// The state after a merchant called `name` has been registered.
    pub open spec fn after_add_merchant(self, name: Seq<char>) -> LedgerState {
        LedgerState { merchants: self.merchants.push(name), ..self }
    }

    /// The state with the pause flag set to `paused`.
    pub open spec fn with_paused(self, paused: bool) -> LedgerState {
        LedgerState { paused, ..self }
    }
}

/// Every state steps to itself.
pub proof fn lemma_steps_to_refl(s: LedgerState)
    ensures
        s.steps_to(s),
{
    assert(s.merchants.subrange(0, s.merchants.len() as int) =~= s.merchants);
}

/// Steps compose.
pub proof fn lemma_steps_to_trans(s: LedgerState, t: LedgerState, u: LedgerState)
    requires
        s.steps_to(t),
        t.steps_to(u),
    ensures
        s.steps_to(u),
{
    assert forall|i: int| 0 <= i < s.cards.len() implies #[trigger] card_step(
        s.cards[i],
        u.cards[i],
    ) by {
        assert(card_step(s.cards[i], t.cards[i]));
        assert(card_step(t.cards[i], u.cards[i]));
    }
    assert(u.merchants.subrange(0, s.merchants.len() as int) =~= u.merchants.subrange(
        0,
        t.merchants.len() as int,
    ).subrange(0, s.merchants.len() as int));
}

/// A new card keeps the invariant and is a step.
pub proof fn lemma_create(
    s: LedgerState,
    caller: Address,
    now: u64,
    amount: u128,
    expiry_days: u64,
    merchants: Seq<u64>,
    message: Seq<char>,
)
    requires
        s.wf(),
        s.cards.len() < u64::MAX,
        s.create_error(amount, expiry_days, message) is None,
    ensures
        s.after_create(caller, now, amount, expiry_days, merchants, message).wf(),
        s.steps_to(s.after_create(caller, now, amount, expiry_days, merchants, message)),
{
    let t = s.after_create(caller, now, amount, expiry_days, merchants, message);
    assert forall|i: int| 0 <= i < t.cards.len() implies #[trigger] card_wf(t.cards[i], i + 1) by {
        if i < s.cards.len() {
            assert(card_wf(s.cards[i], i + 1));
        }
    }
    assert forall|i: int| 0 <= i < s.cards.len() implies #[trigger] card_step(
        s.cards[i],
        t.cards[i],
    ) by {
        assert(t.cards[i] == s.cards[i]);
    }
    lemma_steps_to_refl(s);
}

/// A redemption keeps the invariant and is a step.
pub proof fn lemma_redeem(s: LedgerState, id: u64, amount: u128)
    requires
        s.wf(),
        s.has_card(id as int),
        amount <= s.card(id as int).remaining_balance,
    ensures
        s.after_redeem(id, amount).wf(),
        s.steps_to(s.after_redeem(id, amount)),
{
    let t = s.after_redeem(id, amount);
    let k = id - 1;
    assert(card_wf(s.cards[k], k + 1));
    assert forall|i: int| 0 <= i < t.cards.len() implies #[trigger] card_wf(t.cards[i], i + 1) by {
        assert(card_wf(s.cards[i], i + 1));
    }
    assert forall|i: int| 0 <= i < s.cards.len() implies #[trigger] card_step(
        s.cards[i],
        t.cards[i],
    ) by {}
    lemma_steps_to_refl(s);
}

/// A refund keeps the invariant and is a step.
pub proof fn lemma_refund(s: LedgerState, id: u64)
    requires
        s.wf(),
        s.has_card(id as int),
    ensures
        s.after_refund(id).wf(),
        s.steps_to(s.after_refund(id)),
{
    let t = s.after_refund(id);
    assert forall|i: int| 0 <= i < t.cards.len() implies #[trigger] card_wf(t.cards[i], i + 1) by {
        assert(card_wf(s.cards[i], i + 1));
    }
    assert forall|i: int| 0 <= i < s.cards.len() implies #[trigger] card_step(
        s.cards[i],
        t.cards[i],
    ) by {}
    lemma_steps_to_refl(s);
}

/// Registering a merchant keeps the invariant and is a step.
pub proof fn lemma_add_merchant(s: LedgerState, name: Seq<char>)
    requires
        s.wf(),
    ensures
        s.after_add_merchant(name).wf(),
        s.steps_to(s.after_add_merchant(name)),
{
    let t = s.after_add_merchant(name);
    assert(t.merchants.subrange(0, s.merchants.len() as int) =~= s.merchants);
    assert forall|i: int| 0 <= i < s.cards.len() implies #[trigger] card_step(
        s.cards[i],
        t.cards[i],
    ) by {}
}

/// Changing the pause flag keeps the invariant and is a step.
pub proof fn lemma_with_paused(s: LedgerState, paused: bool)
    requires
        s.wf(),
    ensures
        s.with_paused(paused).wf(),
        s.steps_to(s.with_paused(paused)),
{
    let t = s.with_paused(paused);
    assert(t.merchants.subrange(0, s.merchants.len() as int) =~= s.merchants);
    assert forall|i: int| 0 <= i < s.cards.len() implies #[trigger] card_step(
        s.cards[i],
        t.cards[i],
    ) by {}
}

} // verus!
