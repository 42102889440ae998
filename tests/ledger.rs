use flexigift::contract::FlexiGiftContract;
use flexigift::types::{Address, FlexiGiftError};

fn owner() -> Address {
    Address::from_low(1)
}

fn giver() -> Address {
    Address::from_low(2)
}

fn stranger() -> Address {
    Address::from_low(3)
}

fn ledger() -> FlexiGiftContract {
    let mut c = FlexiGiftContract::new();
    c.initialize(owner(), Address::from_low(99)).unwrap();
    c
}

#[test]
fn test_gift_card_creation() {
    let mut c = ledger();
    let amount: u128 = 100_000_000;
    let expiry_days: u64 = 30;
    let id = c
        .create_gift_card(giver(), 0, amount, expiry_days, vec![1], String::new())
        .unwrap();
    let card = c.get_gift_card(id).unwrap();
    assert!(card.amount > 0);
    assert!(card.expiry_timestamp > card.created_at as u128);
}

#[test]
fn test_expiry_calculation() {
    let mut c = ledger();
    let id = c
        .create_gift_card(giver(), 0, 1, 30, vec![1], String::new())
        .unwrap();
    assert_eq!(c.get_gift_card(id).unwrap().expiry_timestamp, 2_592_000);
    assert_eq!(30u128 * 86400, 2_592_000);
}

#[test]
fn test_balance_deduction() {
    let mut c = ledger();
    let id = c
        .create_gift_card(giver(), 0, 100_000_000, 30, vec![1], String::new())
        .unwrap();
    let remaining = c.redeem_gift_card(10, id, 25_000_000, 1).unwrap();
    assert_eq!(remaining, 75_000_000);
    assert_eq!(c.get_gift_card(id).unwrap().remaining_balance, 75_000_000);
}

#[test]
fn new_card_is_full_and_active() {
    let mut c = ledger();
    let id = c
        .create_gift_card(giver(), 500, 70, 2, vec![4, 5], "thanks".to_string())
        .unwrap();
    let card = c.get_gift_card(id).unwrap();
    assert_eq!(card.id, id);
    assert_eq!(card.giver, giver());
    assert_eq!(card.amount, 70);
    assert_eq!(card.remaining_balance, 70);
    assert!(card.is_active);
    assert_eq!(card.created_at, 500);
    assert_eq!(card.expiry_timestamp, 500 + 2 * 86400);
    assert_eq!(card.message, "thanks");
    assert_eq!(card.allowed_merchants, vec![4, 5]);
}

#[test]
fn redeem_then_exhaust_scenario() {
    let mut c = ledger();
    let id = c
        .create_gift_card(giver(), 0, 100, 30, vec![1], "hi".to_string())
        .unwrap();
    assert_eq!(id, 1);
    assert_eq!(c.get_gift_card(1).unwrap().expiry_timestamp, 2_592_000);
    assert_eq!(c.redeem_gift_card(1000, 1, 40, 1), Ok(60));
    assert!(c.get_gift_card(1).unwrap().is_active);
    assert_eq!(c.redeem_gift_card(2000, 1, 60, 1), Ok(0));
    let card = c.get_gift_card(1).unwrap();
    assert_eq!(card.remaining_balance, 0);
    assert!(!card.is_active);
    assert_eq!(
        c.redeem_gift_card(3000, 1, 1, 1),
        Err(FlexiGiftError::GiftCardInactive)
    );
}

#[test]
fn refund_boundary_scenario() {
    let mut c = ledger();
    let id = c
        .create_gift_card(giver(), 0, 50, 1, vec![1], String::new())
        .unwrap();
    assert_eq!(c.get_gift_card(id).unwrap().expiry_timestamp, 86400);
    assert_eq!(
        c.refund_gift_card(giver(), 86400, id),
        Err(FlexiGiftError::InvalidExpiry)
    );
    assert_eq!(c.refund_gift_card(giver(), 86401, id), Ok(50));
    let card = c.get_gift_card(id).unwrap();
    assert_eq!(card.remaining_balance, 0);
    assert!(!card.is_active);
}

#[test]
fn pause_blocks_create_but_not_refund() {
    let mut c = ledger();
    let id = c
        .create_gift_card(giver(), 0, 50, 1, vec![1], String::new())
        .unwrap();
    assert_eq!(c.pause(owner()), Ok(()));
    assert!(c.is_paused());
    assert_eq!(
        c.create_gift_card(stranger(), 10, 5, 1, vec![1], String::new()),
        Err(FlexiGiftError::Paused)
    );
    assert_eq!(
        c.redeem_gift_card(10, id, 5, 1),
        Err(FlexiGiftError::Paused)
    );
    assert_eq!(c.refund_gift_card(giver(), 90_000, id), Ok(50));
    assert_eq!(c.gift_card_count(), 1);
}

#[test]
fn unpause_restores_operations() {
    let mut c = ledger();
    c.pause(owner()).unwrap();
    assert_eq!(c.unpause(stranger()), Err(FlexiGiftError::Unauthorized));
    assert!(c.is_paused());
    assert_eq!(c.unpause(owner()), Ok(()));
    assert!(!c.is_paused());
    assert_eq!(
        c.create_gift_card(giver(), 0, 5, 1, vec![1], String::new()),
        Ok(1)
    );
}

#[test]
fn pause_by_stranger_is_refused() {
    let mut c = ledger();
    assert_eq!(c.pause(stranger()), Err(FlexiGiftError::Unauthorized));
    assert!(!c.is_paused());
}

#[test]
fn create_rejects_bad_inputs() {
    let mut c = ledger();
    assert_eq!(
        c.create_gift_card(giver(), 0, 0, 1, vec![1], String::new()),
        Err(FlexiGiftError::InvalidAmount)
    );
    assert_eq!(
        c.create_gift_card(giver(), 0, 1, 0, vec![1], String::new()),
        Err(FlexiGiftError::InvalidExpiry)
    );
    assert_eq!(
        c.create_gift_card(giver(), 0, 1, 1, vec![1], "x".repeat(281)),
        Err(FlexiGiftError::MessageTooLong)
    );
    assert_eq!(c.gift_card_count(), 0);
    assert_eq!(
        c.create_gift_card(giver(), 0, 1, 1, vec![1], "x".repeat(280)),
        Ok(1)
    );
}

#[test]
fn message_bound_counts_bytes() {
    let mut c = ledger();
    // 141 two-byte characters make 282 bytes.
    assert_eq!(
        c.create_gift_card(giver(), 0, 1, 1, vec![1], "é".repeat(141)),
        Err(FlexiGiftError::MessageTooLong)
    );
    assert_eq!(
        c.create_gift_card(giver(), 0, 1, 1, vec![1], "é".repeat(140)),
        Ok(1)
    );
}

#[test]
fn ids_follow_creation_order() {
    let mut c = ledger();
    assert_eq!(c.create_gift_card(giver(), 0, 1, 1, vec![], String::new()), Ok(1));
    assert_eq!(c.create_gift_card(giver(), 0, 1, 1, vec![], String::new()), Ok(2));
    assert_eq!(c.create_gift_card(giver(), 0, 1, 1, vec![], String::new()), Ok(3));
}

#[test]
fn redeem_unknown_card() {
    let mut c = ledger();
    assert_eq!(
        c.redeem_gift_card(0, 0, 1, 1),
        Err(FlexiGiftError::GiftCardNotFound)
    );
    assert_eq!(
        c.redeem_gift_card(0, 1, 1, 1),
        Err(FlexiGiftError::GiftCardNotFound)
    );
    assert!(c.get_gift_card(1).is_err());
}

#[test]
fn redeem_after_expiry_fails_whatever_the_balance() {
    let mut c = ledger();
    let id = c
        .create_gift_card(giver(), 0, 100, 1, vec![1], String::new())
        .unwrap();
    assert_eq!(c.redeem_gift_card(86400, id, 10, 1), Ok(90));
    assert_eq!(
        c.redeem_gift_card(86401, id, 1, 1),
        Err(FlexiGiftError::GiftCardExpired)
    );
    assert_eq!(
        c.redeem_gift_card(86401, id, 1000, 7),
        Err(FlexiGiftError::GiftCardExpired)
    );
}

#[test]
fn redeem_over_balance_fails() {
    let mut c = ledger();
    let id = c
        .create_gift_card(giver(), 0, 100, 1, vec![1], String::new())
        .unwrap();
    assert_eq!(
        c.redeem_gift_card(1, id, 101, 1),
        Err(FlexiGiftError::InsufficientBalance)
    );
    assert_eq!(c.get_gift_card(id).unwrap().remaining_balance, 100);
}

#[test]
fn redeem_at_unlisted_merchant_fails() {
    let mut c = ledger();
    let id = c
        .create_gift_card(giver(), 0, 100, 1, vec![1, 3], String::new())
        .unwrap();
    assert_eq!(
        c.redeem_gift_card(1, id, 10, 2),
        Err(FlexiGiftError::MerchantNotAllowed)
    );
    assert_eq!(c.redeem_gift_card(1, id, 10, 3), Ok(90));
}

#[test]
fn empty_allowlist_rejects_every_merchant() {
    let mut c = ledger();
    let id = c
        .create_gift_card(giver(), 0, 100, 1, vec![], String::new())
        .unwrap();
    assert_eq!(
        c.redeem_gift_card(1, id, 10, 1),
        Err(FlexiGiftError::MerchantNotAllowed)
    );
}

#[test]
fn redemptions_never_exceed_original_amount() {
    let mut c = ledger();
    let id = c
        .create_gift_card(giver(), 0, 100, 1, vec![1], String::new())
        .unwrap();
    let mut last: u128 = 100;
    let mut taken: u128 = 0;
    for amount in [30u128, 0, 50, 30, 20, 5] {
        match c.redeem_gift_card(5, id, amount, 1) {
            Ok(rest) => {
                assert!(rest <= last);
                taken += amount;
                last = rest;
            }
            Err(e) => assert_ne!(e, FlexiGiftError::GiftCardNotFound),
        }
        assert!(taken <= 100);
    }
    assert_eq!(taken, 100);
    assert_eq!(last, 0);
}

#[test]
fn refund_by_stranger_is_refused() {
    let mut c = ledger();
    let id = c
        .create_gift_card(giver(), 0, 50, 1, vec![1], String::new())
        .unwrap();
    assert_eq!(
        c.refund_gift_card(stranger(), 1_000_000, id),
        Err(FlexiGiftError::Unauthorized)
    );
    assert_eq!(
        c.refund_gift_card(giver(), 5, 9),
        Err(FlexiGiftError::GiftCardNotFound)
    );
}

#[test]
fn refund_after_partial_redemption_and_twice() {
    let mut c = ledger();
    let id = c
        .create_gift_card(giver(), 0, 50, 1, vec![1], String::new())
        .unwrap();
    assert_eq!(c.redeem_gift_card(10, id, 20, 1), Ok(30));
    assert_eq!(c.refund_gift_card(giver(), 86401, id), Ok(30));
    assert_eq!(c.refund_gift_card(giver(), 86402, id), Ok(0));
    assert_eq!(
        c.redeem_gift_card(10, id, 0, 1),
        Err(FlexiGiftError::GiftCardInactive)
    );
}

#[test]
fn merchant_registry() {
    let mut c = ledger();
    assert_eq!(
        c.add_merchant(stranger(), "Shop".to_string()),
        Err(FlexiGiftError::Unauthorized)
    );
    assert_eq!(c.merchant_count(), 0);
    assert_eq!(c.add_merchant(owner(), "Shop".to_string()), Ok(1));
    assert_eq!(c.add_merchant(owner(), "Shop".to_string()), Ok(2));
    assert_eq!(c.add_merchant(owner(), "Cafe".to_string()), Ok(3));
    assert_eq!(c.get_merchant_name(1), Some("Shop".to_string()));
    assert_eq!(c.get_merchant_name(3), Some("Cafe".to_string()));
    assert_eq!(c.get_merchant_name(0), None);
    assert_eq!(c.get_merchant_name(4), None);
}

#[test]
fn initialize_only_once() {
    let mut c = FlexiGiftContract::new();
    assert_eq!(c.owner(), Address::zero());
    assert_eq!(c.initialize(owner(), Address::from_low(7)), Ok(()));
    assert_eq!(c.owner(), owner());
    assert_eq!(
        c.initialize(stranger(), Address::from_low(8)),
        Err(FlexiGiftError::Unauthorized)
    );
    assert_eq!(c.owner(), owner());
}

#[test]
fn card_copy_is_independent() {
    let mut c = ledger();
    let id = c
        .create_gift_card(giver(), 0, 50, 1, vec![1], String::new())
        .unwrap();
    let before = c.get_gift_card(id).unwrap();
    c.redeem_gift_card(1, id, 10, 1).unwrap();
    assert_eq!(before.remaining_balance, 50);
    assert_eq!(c.get_gift_card(id).unwrap().remaining_balance, 40);
}
