//! A trustless two-party asset-swap escrow over a ledger with programmable
//! accounts and token custody.
//!
//! A maker deposits an amount of asset X into a custody vault and names the
//! amount of asset Y wanted in return; a taker may fulfil the trade
//! atomically, or the maker may cancel and reclaim the deposit.  The three
//! operations — `make`, `take`, `refund` — are verified against a
//! mathematical model of the ledger, and the authority over the vault is a
//! deterministically derived address with no private key.

pub mod error;
pub mod state;
pub mod ledger;
pub mod make;
pub mod take;
pub mod refund;
pub mod laws;
pub mod authority;

pub use error::EscrowError;
pub use state::Escrow;
pub use ledger::{Ledger, LedgerView, TokenAccount, EscrowAccount};
pub use make::Make;
pub use take::Take;
pub use refund::Refund;
