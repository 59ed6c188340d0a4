use anchor_lang::solana_program::pubkey::Pubkey;
use wba_escrow::authority::{derive_escrow_authority, escrow_authority_matches};

const PROGRAM: [u8; 32] = [7u8; 32];
const MAKER: [u8; 32] = [42u8; 32];

#[test]
fn derivation_is_deterministic() {
    let a = derive_escrow_authority(&PROGRAM, &MAKER, 1).unwrap();
    let b = derive_escrow_authority(&PROGRAM, &MAKER, 1).unwrap();
    assert_eq!(a, b);
}

#[test]
fn derivation_separates_seeds_and_makers() {
    let a = derive_escrow_authority(&PROGRAM, &MAKER, 1).unwrap();
    let b = derive_escrow_authority(&PROGRAM, &MAKER, 2).unwrap();
    assert_ne!(a.0, b.0);
    let other = [43u8; 32];
    let c = derive_escrow_authority(&PROGRAM, &other, 1).unwrap();
    assert_ne!(a.0, c.0);
}

#[test]
fn derivation_matches_the_ledger_primitive() {
    // The seed layout is (tag, maker, seed-le-bytes), exactly what the
    // ledger SDK derives from.
    let seed: u64 = 0x1122334455667788;
    let (addr, bump) = derive_escrow_authority(&PROGRAM, &MAKER, seed).unwrap();
    let pid = Pubkey::new_from_array(PROGRAM);
    let (expect, expect_bump) = Pubkey::find_program_address(
        &[b"escrow", MAKER.as_ref(), seed.to_le_bytes().as_ref()],
        &pid,
    );
    assert_eq!(addr, expect.to_bytes());
    assert_eq!(bump, expect_bump);
}

#[test]
fn authority_match_accepts_the_derivation_only() {
    let (addr, bump) = derive_escrow_authority(&PROGRAM, &MAKER, 9).unwrap();
    assert!(escrow_authority_matches(&PROGRAM, &MAKER, 9, &addr, bump));
    // A flipped byte or a wrong bump must be rejected.
    let mut forged = addr;
    forged[0] = forged[0].wrapping_add(1);
    assert!(!escrow_authority_matches(&PROGRAM, &MAKER, 9, &forged, bump));
    assert!(!escrow_authority_matches(&PROGRAM, &MAKER, 9, &addr, bump.wrapping_sub(1)));
    // And the right tuple under a different seed must not pass either.
    assert!(!escrow_authority_matches(&PROGRAM, &MAKER, 8, &addr, bump));
}
