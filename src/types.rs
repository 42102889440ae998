use vstd::prelude::*;

verus! {

/// A 160-bit account identity, held as three plain words (high to low).
#[derive(Clone, Copy, Debug, PartialEq, Eq, Structural)]
pub struct Address {
    pub hi: u64,
    pub mid: u64,
    pub lo: u32,
}

impl Address {
    /// The all-zero identity, which stands for "nobody".
    pub fn zero() -> (r: Address)
        ensures
            r == (Address { hi: 0, mid: 0, lo: 0 }),
    {
        Address { hi: 0, mid: 0, lo: 0 }
    }

    /// An identity whose low word is `lo` and whose other words are zero.
    pub fn from_low(lo: u32) -> (r: Address)
        ensures
            r == (Address { hi: 0, mid: 0, lo }),
    {
        Address { hi: 0, mid: 0, lo }
    }
}

/// Why an operation on the ledger was rejected.
#[derive(Clone, Copy, Debug, PartialEq, Eq, Structural)]
pub enum FlexiGiftError {
    Unauthorized,
    InvalidAmount,
    InvalidExpiry,
    GiftCardNotFound,
    GiftCardExpired,
    GiftCardInactive,
    InsufficientBalance,
    TransferFailed,
    Paused,
    MerchantNotAllowed,
    MessageTooLong,
}

/// The abstract content of a gift card.
pub struct CardView {
    pub id: u64,
    pub giver: Address,
    pub amount: u128,
    pub remaining_balance: u128,
    pub expiry_timestamp: u128,
    pub is_active: bool,
    pub created_at: u64,
    pub message: Seq<char>,
    pub allowed_merchants: Seq<u64>,
}

/// A prepaid voucher: a fixed amount locked by its giver, spendable at the
/// listed merchants until it expires.
#[derive(Debug)]
pub struct GiftCard {
    pub id: u64,
    pub giver: Address,
    pub amount: u128,
    pub remaining_balance: u128,
    pub expiry_timestamp: u128,
    pub is_active: bool,
    pub created_at: u64,
    pub message: String,
    pub allowed_merchants: Vec<u64>,
}

impl View for GiftCard {
    type V = CardView;

    open spec fn view(&self) -> CardView {
        CardView {
            id: self.id,
            giver: self.giver,
            amount: self.amount,
            remaining_balance: self.remaining_balance,
            expiry_timestamp: self.expiry_timestamp,
            is_active: self.is_active,
            created_at: self.created_at,
            message: self.message@,
            allowed_merchants: self.allowed_merchants@,
        }
    }
}

impl GiftCard {
    /// A field-for-field copy of the card.
    pub fn copy(&self) -> (r: GiftCard)
        ensures
            r@ == self@,
    {
        let mut merchants: Vec<u64> = Vec::new();
        let mut i: usize = 0;
        while i < self.allowed_merchants.len()
            invariant
                0 <= i <= self.allowed_merchants@.len(),
                merchants@ == self.allowed_merchants@.subrange(0, i as int),
            decreases self.allowed_merchants@.len() - i,
        {
            merchants.push(self.allowed_merchants[i]);
            i += 1;
            assert(merchants@ =~= self.allowed_merchants@.subrange(0, i as int));
        }
        assert(merchants@ =~= self.allowed_merchants@);
        GiftCard {
            id: self.id,
            giver: self.giver,
            amount: self.amount,
            remaining_balance: self.remaining_balance,
            expiry_timestamp: self.expiry_timestamp,
            is_active: self.is_active,
            created_at: self.created_at,
            message: self.message.clone(),
            allowed_merchants: merchants,
        }
    }
}

} // verus!
