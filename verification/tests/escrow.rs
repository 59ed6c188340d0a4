use wba_escrow::{EscrowError, Ledger, Make, Refund, Take, TokenAccount};

// Identities.
const MAKER: u64 = 1;
const TAKER: u64 = 2;
const OTHER: u64 = 3;
// Asset types.
const MINT_A: u64 = 10;
const MINT_B: u64 = 11;
// Token account addresses.
const MAKER_A: u64 = 100;
const MAKER_B: u64 = 101;
const TAKER_B: u64 = 200;
const TAKER_A: u64 = 201;
const OTHER_B: u64 = 300;
const OTHER_A: u64 = 301;
// Fresh addresses for records and vaults.
const ESCROW_1: u64 = 1000;
const VAULT_1: u64 = 1001;
const ESCROW_2: u64 = 1002;
const VAULT_2: u64 = 1003;

fn base_ledger() -> Ledger {
    let mut l = Ledger::new();
    l.accounts.push(TokenAccount { addr: MAKER_A, mint: MINT_A, authority: MAKER, balance: 100 });
    l.accounts.push(TokenAccount { addr: MAKER_B, mint: MINT_B, authority: MAKER, balance: 0 });
    l.accounts.push(TokenAccount { addr: TAKER_B, mint: MINT_B, authority: TAKER, balance: 60 });
    l.accounts.push(TokenAccount { addr: TAKER_A, mint: MINT_A, authority: TAKER, balance: 0 });
    l.accounts.push(TokenAccount { addr: OTHER_B, mint: MINT_B, authority: OTHER, balance: 55 });
    l.accounts.push(TokenAccount { addr: OTHER_A, mint: MINT_A, authority: OTHER, balance: 0 });
    l
}

fn open_1(l: &mut Ledger) {
    let r = l.make(Make {
        maker: MAKER,
        seed: 1,
        amount_x: 100,
        amount_y: 50,
        mint_x: MINT_A,
        mint_y: MINT_B,
        maker_ata_x: MAKER_A,
        escrow: ESCROW_1,
        vault: VAULT_1,
        escrow_bump: 254,
    });
    assert_eq!(r, Ok(()));
}

#[test]
fn make_moves_deposit_into_vault() {
    let mut l = base_ledger();
    open_1(&mut l);
    assert_eq!(l.balance_of(MAKER_A), Some(0));
    assert_eq!(l.balance_of(VAULT_1), Some(100));
    assert!(l.escrow_addr_exists(ESCROW_1));
}

#[test]
fn make_then_take_settles_both_legs() {
    let mut l = base_ledger();
    open_1(&mut l);
    let r = l.take(Take {
        maker: MAKER,
        taker: TAKER,
        escrow: ESCROW_1,
        vault: VAULT_1,
        taker_ata_y: TAKER_B,
        maker_ata_y: MAKER_B,
        taker_ata_x: TAKER_A,
    });
    assert_eq!(r, Ok(()));
    // The maker got exactly 50 B, the taker exactly 100 A for 50 B.
    assert_eq!(l.balance_of(MAKER_B), Some(50));
    assert_eq!(l.balance_of(TAKER_A), Some(100));
    assert_eq!(l.balance_of(TAKER_B), Some(10));
    // The record and the vault are both gone, other balances untouched.
    assert!(!l.escrow_addr_exists(ESCROW_1));
    assert!(!l.account_exists(VAULT_1));
    assert_eq!(l.balance_of(MAKER_A), Some(0));
    assert_eq!(l.balance_of(OTHER_B), Some(55));
}

#[test]
fn make_then_refund_restores_maker() {
    let mut l = base_ledger();
    open_1(&mut l);
    let r = l.refund(Refund {
        maker: MAKER,
        escrow: ESCROW_1,
        vault: VAULT_1,
        maker_ata_x: MAKER_A,
    });
    assert_eq!(r, Ok(()));
    // The maker's asset-A balance is back at its pre-open value and no
    // record or vault is left behind; the taker is unaffected.
    assert_eq!(l.balance_of(MAKER_A), Some(100));
    assert!(!l.escrow_addr_exists(ESCROW_1));
    assert!(!l.account_exists(VAULT_1));
    assert_eq!(l.balance_of(TAKER_B), Some(60));
}

#[test]
fn duplicate_seed_conflicts_distinct_seeds_coexist() {
    let mut l = base_ledger();
    let r = l.make(Make {
        maker: MAKER,
        seed: 7,
        amount_x: 30,
        amount_y: 5,
        mint_x: MINT_A,
        mint_y: MINT_B,
        maker_ata_x: MAKER_A,
        escrow: ESCROW_1,
        vault: VAULT_1,
        escrow_bump: 255,
    });
    assert_eq!(r, Ok(()));
    // Same maker, same seed: rejected as a state conflict even at fresh
    // addresses.
    let r2 = l.make(Make {
        maker: MAKER,
        seed: 7,
        amount_x: 10,
        amount_y: 1,
        mint_x: MINT_A,
        mint_y: MINT_B,
        maker_ata_x: MAKER_A,
        escrow: ESCROW_2,
        vault: VAULT_2,
        escrow_bump: 253,
    });
    assert_eq!(r2, Err(EscrowError::StateConflict));
    // Same maker, different seed: succeeds independently.
    let r3 = l.make(Make {
        maker: MAKER,
        seed: 8,
        amount_x: 10,
        amount_y: 1,
        mint_x: MINT_A,
        mint_y: MINT_B,
        maker_ata_x: MAKER_A,
        escrow: ESCROW_2,
        vault: VAULT_2,
        escrow_bump: 253,
    });
    assert_eq!(r3, Ok(()));
    assert_eq!(l.balance_of(MAKER_A), Some(60));
    assert_eq!(l.balance_of(VAULT_1), Some(30));
    assert_eq!(l.balance_of(VAULT_2), Some(10));
}

#[test]
fn take_nonexistent_record_fails_without_effect() {
    let mut l = base_ledger();
    let r = l.take(Take {
        maker: MAKER,
        taker: TAKER,
        escrow: ESCROW_1,
        vault: VAULT_1,
        taker_ata_y: TAKER_B,
        maker_ata_y: MAKER_B,
        taker_ata_x: TAKER_A,
    });
    assert_eq!(r, Err(EscrowError::StateConflict));
    // No partial transfer happened.
    assert_eq!(l.balance_of(TAKER_B), Some(60));
    assert_eq!(l.balance_of(MAKER_B), Some(0));
    assert_eq!(l.balance_of(TAKER_A), Some(0));
}

#[test]
fn refund_nonexistent_record_fails_without_effect() {
    let mut l = base_ledger();
    let r = l.refund(Refund {
        maker: MAKER,
        escrow: ESCROW_1,
        vault: VAULT_1,
        maker_ata_x: MAKER_A,
    });
    assert_eq!(r, Err(EscrowError::StateConflict));
    assert_eq!(l.balance_of(MAKER_A), Some(100));
}

#[test]
fn refund_by_non_maker_is_rejected() {
    let mut l = base_ledger();
    open_1(&mut l);
    let r = l.refund(Refund {
        maker: TAKER,
        escrow: ESCROW_1,
        vault: VAULT_1,
        maker_ata_x: TAKER_A,
    });
    assert_eq!(r, Err(EscrowError::Authorization));
    assert_eq!(l.balance_of(VAULT_1), Some(100));
    assert!(l.escrow_addr_exists(ESCROW_1));
}

#[test]
fn take_with_wrong_vault_is_rejected() {
    let mut l = base_ledger();
    open_1(&mut l);
    let r = l.take(Take {
        maker: MAKER,
        taker: TAKER,
        escrow: ESCROW_1,
        vault: TAKER_A,
        taker_ata_y: TAKER_B,
        maker_ata_y: MAKER_B,
        taker_ata_x: TAKER_A,
    });
    assert_eq!(r, Err(EscrowError::StateConflict));
    assert_eq!(l.balance_of(VAULT_1), Some(100));
}

#[test]
fn insufficient_deposit_balance_is_rejected() {
    let mut l = base_ledger();
    let r = l.make(Make {
        maker: MAKER,
        seed: 1,
        amount_x: 200,
        amount_y: 50,
        mint_x: MINT_A,
        mint_y: MINT_B,
        maker_ata_x: MAKER_A,
        escrow: ESCROW_1,
        vault: VAULT_1,
        escrow_bump: 254,
    });
    assert_eq!(r, Err(EscrowError::InsufficientFunds));
    assert_eq!(l.balance_of(MAKER_A), Some(100));
    assert!(!l.account_exists(VAULT_1));
}

#[test]
fn insufficient_payment_balance_is_rejected() {
    let mut l = base_ledger();
    open_1(&mut l);
    // Drain the taker's asset-B account below the asked amount first.
    let i = l.accounts.iter().position(|a| a.addr == TAKER_B).unwrap();
    l.accounts[i].balance = 49;
    let r = l.take(Take {
        maker: MAKER,
        taker: TAKER,
        escrow: ESCROW_1,
        vault: VAULT_1,
        taker_ata_y: TAKER_B,
        maker_ata_y: MAKER_B,
        taker_ata_x: TAKER_A,
    });
    assert_eq!(r, Err(EscrowError::InsufficientFunds));
    assert_eq!(l.balance_of(VAULT_1), Some(100));
    assert_eq!(l.balance_of(MAKER_B), Some(0));
}

#[test]
fn declared_mint_must_match_source_account() {
    let mut l = base_ledger();
    let r = l.make(Make {
        maker: MAKER,
        seed: 1,
        amount_x: 10,
        amount_y: 50,
        mint_x: MINT_B,
        mint_y: MINT_A,
        maker_ata_x: MAKER_A,
        escrow: ESCROW_1,
        vault: VAULT_1,
        escrow_bump: 254,
    });
    assert_eq!(r, Err(EscrowError::AssetTypeMismatch));
}

#[test]
fn zero_deposit_is_not_rejected() {
    // Deliberately preserved behaviour: a zero offered amount is accepted,
    // producing an empty vault; rejecting it would change the protocol.
    let mut l = base_ledger();
    let r = l.make(Make {
        maker: MAKER,
        seed: 1,
        amount_x: 0,
        amount_y: 50,
        mint_x: MINT_A,
        mint_y: MINT_B,
        maker_ata_x: MAKER_A,
        escrow: ESCROW_1,
        vault: VAULT_1,
        escrow_bump: 254,
    });
    assert_eq!(r, Ok(()));
    assert_eq!(l.balance_of(VAULT_1), Some(0));
    assert_eq!(l.balance_of(MAKER_A), Some(100));
}

#[test]
fn anyone_with_funds_may_take() {
    // The protocol never asks who the taker is: a third party that meets
    // the payment and account requirements settles the very same escrow.
    let mut l = base_ledger();
    open_1(&mut l);
    let r = l.take(Take {
        maker: MAKER,
        taker: OTHER,
        escrow: ESCROW_1,
        vault: VAULT_1,
        taker_ata_y: OTHER_B,
        maker_ata_y: MAKER_B,
        taker_ata_x: OTHER_A,
    });
    assert_eq!(r, Ok(()));
    assert_eq!(l.balance_of(MAKER_B), Some(50));
    assert_eq!(l.balance_of(OTHER_A), Some(100));
    assert_eq!(l.balance_of(OTHER_B), Some(5));
    // The originally intended taker is untouched.
    assert_eq!(l.balance_of(TAKER_B), Some(60));
    assert_eq!(l.balance_of(TAKER_A), Some(0));
}
