use vstd::prelude::*;

use crate::state::{
    lemma_add_merchant, lemma_create, lemma_redeem, lemma_refund, lemma_steps_to_refl,
    lemma_with_paused, LedgerState, MAX_MESSAGE_BYTES, SECONDS_PER_DAY,
};
use crate::types::{Address, FlexiGiftError, GiftCard};

verus! {

/// The gift-card ledger: the owner, the pause flag, the cards and the
/// merchant registry. Card and merchant identifiers start at 1 and follow the
/// order of creation.
pub struct FlexiGiftContract {
    initialized: bool,
    owner: Address,
    usdc_token: Address,
    paused: bool,
    gift_cards: Vec<GiftCard>,
    merchant_names: Vec<String>,
}

impl View for FlexiGiftContract {
    type V = LedgerState;

    closed spec fn view(&self) -> LedgerState {
        LedgerState {
            initialized: self.initialized,
            owner: self.owner,
            token: self.usdc_token,
            paused: self.paused,
            cards: self.gift_cards@.map_values(|c: GiftCard| c@),
            merchants: self.merchant_names@.map_values(|n: String| n@),
        }
    }
}

impl FlexiGiftContract {
    /// A ledger before initialization: no owner, no cards, no merchants.
    pub fn new() -> (r: Self)
        ensures
            r@.wf(),
            !r@.initialized,
            r@.owner == (Address { hi: 0, mid: 0, lo: 0 }),
            r@.token == (Address { hi: 0, mid: 0, lo: 0 }),
            !r@.paused,
            r@.cards.len() == 0,
            r@.merchants.len() == 0,
    {
        let r = FlexiGiftContract {
            initialized: false,
            owner: Address::zero(),
            usdc_token: Address::zero(),
            paused: false,
            gift_cards: Vec::new(),
            merchant_names: Vec::new(),
        };
        assert(r@.cards =~= Seq::<crate::types::CardView>::empty());
        r
    }

    /// Makes `caller` the owner and records the token that backs the cards.
    /// It succeeds once; a second call is refused.
    pub fn initialize(&mut self, caller: Address, usdc_address: Address) -> (r: Result<
        (),
        FlexiGiftError,
    >)
        requires
            old(self)@.wf(),
        ensures
            final(self)@.wf(),
            old(self)@.steps_to(final(self)@),
            old(self)@.initialized ==> r == Err::<(), FlexiGiftError>(FlexiGiftError::Unauthorized)
                && final(self)@ == old(self)@,
            !old(self)@.initialized ==> r == Ok::<(), FlexiGiftError>(()) && final(self)@ == (
            LedgerState {
                initialized: true,
                owner: caller,
                token: usdc_address,
                paused: false,
                ..old(self)@
            }),
    {
        proof {
            lemma_steps_to_refl(self@);
        }
        if self.initialized {
            return Err(FlexiGiftError::Unauthorized);
        }
        self.owner = caller;
        self.usdc_token = usdc_address;
        self.paused = false;
        self.initialized = true;
        Ok(())
    }

    /// Creates a card of `amount` for `caller`, spendable at `merchant_indices`
    /// until `expiry_days` days after `now`, and returns its identifier.
    pub fn create_gift_card(
        &mut self,
        caller: Address,
        now: u64,
        amount: u128,
        expiry_days: u64,
        merchant_indices: Vec<u64>,
        message: String,
    ) -> (r: Result<u64, FlexiGiftError>)
        requires
            old(self)@.wf(),
            old(self)@.cards.len() < u64::MAX,
        ensures
            final(self)@.wf(),
            old(self)@.steps_to(final(self)@),
            match r {
                Ok(id) => {
                    &&& old(self)@.create_error(amount, expiry_days, message@) is None
                    &&& id == old(self)@.cards.len() + 1
                    &&& final(self)@ == old(self)@.after_create(
                        caller,
                        now,
                        amount,
                        expiry_days,
                        merchant_indices@,
                        message@,
                    )
                },
                Err(e) => {
                    &&& old(self)@.create_error(amount, expiry_days, message@) == Some(e)
                    &&& final(self)@ == old(self)@
                },
            },
    {
        proof {
            lemma_steps_to_refl(self@);
        }
        if self.paused {
            return Err(FlexiGiftError::Paused);
        }
        if amount == 0 {
            return Err(FlexiGiftError::InvalidAmount);
        }
        if expiry_days == 0 {
            return Err(FlexiGiftError::InvalidExpiry);
        }
        if message.as_str().as_bytes().len() > MAX_MESSAGE_BYTES {
            return Err(FlexiGiftError::MessageTooLong);
        }
        let expiry_seconds: u128 = (expiry_days as u128) * (SECONDS_PER_DAY as u128);
        let expiry_timestamp: u128 = (now as u128) + expiry_seconds;
        let gift_card_id: u64 = self.gift_cards.len() as u64 + 1;
        let card = GiftCard {
            id: gift_card_id,
            giver: caller,
            amount,
            remaining_balance: amount,
            expiry_timestamp,
            is_active: true,
            created_at: now,
            message,
            allowed_merchants: merchant_indices,
        };
        proof {
            lemma_create(self@, caller, now, amount, expiry_days, card.allowed_merchants@, card.message@);
        }
        let ghost pre = self@;
        self.gift_cards.push(card);
        assert(self@.cards =~= pre.cards.push(card@));
        Ok(gift_card_id)
    }

    /// Takes `amount` from card `gift_card_id` at merchant `merchant_index`
    /// at time `now`, and returns the balance left.
    pub fn redeem_gift_card(
        &mut self,
        now: u64,
        gift_card_id: u64,
        amount: u128,
        merchant_index: u64,
    ) -> (r: Result<u128, FlexiGiftError>)
        requires
            old(self)@.wf(),
        ensures
            final(self)@.wf(),
            old(self)@.steps_to(final(self)@),
            match r {
                Ok(rest) => {
                    &&& old(self)@.redeem_error(gift_card_id, amount, merchant_index, now) is None
                    &&& old(self)@.redeemed(final(self)@, gift_card_id, amount)
                    &&& rest == final(self)@.card(gift_card_id as int).remaining_balance
                },
                Err(e) => {
                    &&& old(self)@.redeem_error(gift_card_id, amount, merchant_index, now) == Some(
                        e,
                    )
                    &&& final(self)@ == old(self)@
                },
            },
    {
        proof {
            lemma_steps_to_refl(self@);
        }
        if self.paused {
            return Err(FlexiGiftError::Paused);
        }
        if gift_card_id == 0 || gift_card_id > self.gift_cards.len() as u64 {
            return Err(FlexiGiftError::GiftCardNotFound);
        }
        let idx: usize = (gift_card_id - 1) as usize;
        assert(self.gift_cards@[idx as int]@ == self@.card(gift_card_id as int));
        if !self.gift_cards[idx].is_active {
            return Err(FlexiGiftError::GiftCardInactive);
        }
        if (now as u128) > self.gift_cards[idx].expiry_timestamp {
            return Err(FlexiGiftError::GiftCardExpired);
        }
        if amount > self.gift_cards[idx].remaining_balance {
            return Err(FlexiGiftError::InsufficientBalance);
        }
        let merchants = &self.gift_cards[idx].allowed_merchants;
        let mut merchant_allowed = false;
        let mut i: usize = 0;
        while i < merchants.len() && !merchant_allowed
            invariant
                0 <= i <= merchants@.len(),
                merchant_allowed ==> merchants@.contains(merchant_index),
                !merchant_allowed ==> forall|j: int| 0 <= j < i ==> merchants@[j] != merchant_index,
            decreases merchants@.len() - i,
        {
            if merchants[i] == merchant_index {
                merchant_allowed = true;
                assert(merchants@[i as int] == merchant_index);
            }
            i += 1;
        }
        if !merchant_allowed {
            return Err(FlexiGiftError::MerchantNotAllowed);
        }
        let ghost pre = self@;
        proof {
            lemma_redeem(pre, gift_card_id, amount);
        }
        let rest: u128 = self.gift_cards[idx].remaining_balance - amount;
        self.gift_cards[idx].remaining_balance = rest;
        self.gift_cards[idx].is_active = rest != 0;
        assert(self@.cards =~= pre.after_redeem(gift_card_id, amount).cards);
        Ok(rest)
    }

    /// Returns to its giver what is left on card `gift_card_id` once the card
    /// has expired, and closes the card. The pause flag does not apply.
    pub fn refund_gift_card(&mut self, caller: Address, now: u64, gift_card_id: u64) -> (r: Result<
        u128,
        FlexiGiftError,
    >)
        requires
            old(self)@.wf(),
        ensures
            final(self)@.wf(),
            old(self)@.steps_to(final(self)@),
            match r {
                Ok(refund) => {
                    &&& old(self)@.refund_error(gift_card_id, caller, now) is None
                    &&& refund == old(self)@.card(gift_card_id as int).remaining_balance
                    &&& final(self)@ == old(self)@.after_refund(gift_card_id)
                },
                Err(e) => {
                    &&& old(self)@.refund_error(gift_card_id, caller, now) == Some(e)
                    &&& final(self)@ == old(self)@
                },
            },
    {
        proof {
            lemma_steps_to_refl(self@);
        }
        if gift_card_id == 0 || gift_card_id > self.gift_cards.len() as u64 {
            return Err(FlexiGiftError::GiftCardNotFound);
        }
        let idx: usize = (gift_card_id - 1) as usize;
        assert(self.gift_cards@[idx as int]@ == self@.card(gift_card_id as int));
        if caller != self.gift_cards[idx].giver {
            return Err(FlexiGiftError::Unauthorized);
        }
        if (now as u128) <= self.gift_cards[idx].expiry_timestamp {
            return Err(FlexiGiftError::InvalidExpiry);
        }
        let ghost pre = self@;
        proof {
            lemma_refund(pre, gift_card_id);
        }
        let refund_amount: u128 = self.gift_cards[idx].remaining_balance;
        self.gift_cards[idx].is_active = false;
        self.gift_cards[idx].remaining_balance = 0;
        assert(self@.cards =~= pre.after_refund(gift_card_id).cards);
        Ok(refund_amount)
    }

    /// A copy of card `gift_card_id`.
    pub fn get_gift_card(&self, gift_card_id: u64) -> (r: Result<GiftCard, FlexiGiftError>)
        ensures
            match r {
                Ok(card) => self@.has_card(gift_card_id as int) && card@ == self@.card(
                    gift_card_id as int,
                ),
                Err(e) => !self@.has_card(gift_card_id as int) && e
                    == FlexiGiftError::GiftCardNotFound,
            },
    {
        if gift_card_id == 0 || gift_card_id > self.gift_cards.len() as u64 {
            return Err(FlexiGiftError::GiftCardNotFound);
        }
        let idx: usize = (gift_card_id - 1) as usize;
        assert(self.gift_cards@[idx as int]@ == self@.card(gift_card_id as int));
        Ok(self.gift_cards[idx].copy())
    }

    /// Registers a merchant called `name` and returns its identifier. Only the
    /// owner may do so; names need not be distinct.
    pub fn add_merchant(&mut self, caller: Address, name: String) -> (r: Result<
        u64,
        FlexiGiftError,
    >)
        requires
            old(self)@.wf(),
            old(self)@.merchants.len() < u64::MAX,
        ensures
            final(self)@.wf(),
            old(self)@.steps_to(final(self)@),
            match r {
                Ok(id) => {
                    &&& old(self)@.owner_error(caller) is None
                    &&& id == old(self)@.merchants.len() + 1
                    &&& final(self)@ == old(self)@.after_add_merchant(name@)
                },
                Err(e) => {
                    &&& old(self)@.owner_error(caller) == Some(e)
                    &&& final(self)@ == old(self)@
                },
            },
    {
        proof {
            lemma_steps_to_refl(self@);
        }
        if caller != self.owner {
            return Err(FlexiGiftError::Unauthorized);
        }
        let merchant_id: u64 = self.merchant_names.len() as u64 + 1;
        let ghost pre = self@;
        proof {
            lemma_add_merchant(pre, name@);
        }
        self.merchant_names.push(name);
        assert(self@.merchants =~= pre.after_add_merchant(name@).merchants);
        Ok(merchant_id)
    }

    /// The name of merchant `merchant_id`, or `None` for an unknown one.
    pub fn get_merchant_name(&self, merchant_id: u64) -> (r: Option<String>)
        ensures
            match r {
                Some(name) => 1 <= merchant_id <= self@.merchants.len() && name@
                    == self@.merchants[merchant_id - 1],
                None => !(1 <= merchant_id <= self@.merchants.len()),
            },
    {
        if merchant_id == 0 || merchant_id > self.merchant_names.len() as u64 {
            return None;
        }
        let idx: usize = (merchant_id - 1) as usize;
        Some(self.merchant_names[idx].clone())
    }

    /// Halts creation and redemption. Only the owner may do so.
    pub fn pause(&mut self, caller: Address) -> (r: Result<(), FlexiGiftError>)
        requires
            old(self)@.wf(),
        ensures
            final(self)@.wf(),
            old(self)@.steps_to(final(self)@),
            match r {
                Ok(()) => old(self)@.owner_error(caller) is None && final(self)@ == old(
                    self,
                )@.with_paused(true),
                Err(e) => old(self)@.owner_error(caller) == Some(e) && final(self)@ == old(self)@,
            },
    {
        self.set_paused(caller, true)
    }

    /// Resumes creation and redemption. Only the owner may do so.
    pub fn unpause(&mut self, caller: Address) -> (r: Result<(), FlexiGiftError>)
        requires
            old(self)@.wf(),
        ensures
            final(self)@.wf(),
            old(self)@.steps_to(final(self)@),
            match r {
                Ok(()) => old(self)@.owner_error(caller) is None && final(self)@ == old(
                    self,
                )@.with_paused(false),
                Err(e) => old(self)@.owner_error(caller) == Some(e) && final(self)@ == old(self)@,
            },
    {
        self.set_paused(caller, false)
    }

    fn set_paused(&mut self, caller: Address, paused: bool) -> (r: Result<(), FlexiGiftError>)
        requires
            old(self)@.wf(),
        ensures
            final(self)@.wf(),
            old(self)@.steps_to(final(self)@),
            match r {
                Ok(()) => old(self)@.owner_error(caller) is None && final(self)@ == old(
                    self,
                )@.with_paused(paused),
                Err(e) => old(self)@.owner_error(caller) == Some(e) && final(self)@ == old(self)@,
            },
    {
        proof {
            lemma_steps_to_refl(self@);
            lemma_with_paused(self@, paused);
        }
        if caller != self.owner {
            return Err(FlexiGiftError::Unauthorized);
        }
        self.paused = paused;
        Ok(())
    }

    /// The number of cards created so far.
    pub fn gift_card_count(&self) -> (r: usize)
        ensures
            r == self@.cards.len(),
    {
        self.gift_cards.len()
    }

    /// The number of merchants registered so far.
    pub fn merchant_count(&self) -> (r: usize)
        ensures
            r == self@.merchants.len(),
    {
        self.merchant_names.len()
    }

    /// Whether creation and redemption are halted.
    pub fn is_paused(&self) -> (r: bool)
        ensures
            r == self@.paused,
    {
        self.paused
    }

    /// The owner of the registry.
    pub fn owner(&self) -> (r: Address)
        ensures
            r == self@.owner,
    {
        self.owner
    }
}

} // verus!
