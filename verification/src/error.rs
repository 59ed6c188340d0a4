use vstd::prelude::*;

verus! {

/// The failure taxonomy of the escrow program.
///
/// Every operation rejects as a whole: when one of these is returned the
/// ledger is left exactly as it was, with no partial transfer.
#[derive(Clone, Copy, PartialEq, Eq, Structural, Debug)]
pub enum EscrowError {
    /// The caller is not the identity the operation requires: not the maker
    /// for a refund, an account not controlled by the claimed party, or a
    /// derived authority address standing where only a key-holding identity
    /// may act.
    Authorization,
    /// A source account holds less than the amount the transfer needs.
    InsufficientFunds,
    /// A declared mint does not match an account's actual asset type.
    AssetTypeMismatch,
    /// An open for a (maker, seed) pair that is already in use, an address
    /// collision, or a take/refund against a record or vault that does not
    /// match the stored derivation.
    StateConflict,
}

} // verus!
