use vstd::prelude::*;

verus! {

/// The one persistent record of the program: a single open trade offer.
///
/// Identities and addresses are ledger keys, modelled as plain integers.
/// The record lives at an address derived from (domain tag, `maker`, `seed`),
/// so the pair (`maker`, `seed`) is a unique key among open escrows, and
/// `escrow_bump` stores the disambiguation value of that derivation so the
/// record's own address can later be reproduced as the signing authority for
/// the vault.
///
/// All fields are immutable for the record's whole lifetime: it is created by
/// `make` and destroyed by whichever of `take` or `refund` runs first.
#[derive(Clone, Copy, PartialEq, Eq, Structural, Debug)]
pub struct Escrow {
    /// Identity of the depositor who opened the escrow.
    pub maker: u64,
    /// Address of the custody account holding the offered asset.
    pub vault: u64,
    /// Asset type offered by the maker.
    pub mint_x: u64,
    /// Asset type the maker asks for in return.
    pub mint_y: u64,
    /// Quantity of asset X held in custody.
    pub amount_x: u64,
    /// Quantity of asset Y the maker requires.
    pub amount_y: u64,
    /// Caller-chosen disambiguator: one maker may run several escrows.
    pub seed: u64,
    /// Disambiguation value of the address derivation (the bump).
    pub escrow_bump: u8,
}

} // verus!
