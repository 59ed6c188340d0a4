use vstd::prelude::*;

use crate::error::EscrowError;
use crate::state::Escrow;
use crate::ledger::{
    Ledger, LedgerView, TokenAccount, EscrowAccount, has_acct, acct_at, acct_of, has_escrow_addr,
    has_escrow_key, maker_in_use, authority_in_use, wf, lemma_acct_at_is,
};

verus! {

/// The account set of an open: the maker's identity, the chosen terms, the
/// maker's source account for asset X, and the fresh addresses for the
/// record and the vault together with the derivation bump of the record
/// address.
#[derive(Clone, Copy, PartialEq, Eq, Structural, Debug)]
pub struct Make {
    /// The caller: the depositor opening the escrow.
    pub maker: u64,
    /// Caller-chosen disambiguator of this escrow among the maker's.
    pub seed: u64,
    /// Quantity of asset X moved into custody.
    pub amount_x: u64,
    /// Quantity of asset Y wanted in return.
    pub amount_y: u64,
    /// The offered asset type.
    pub mint_x: u64,
    /// The wanted asset type.
    pub mint_y: u64,
    /// The maker's source account for asset X.
    pub maker_ata_x: u64,
    /// The derived address the new record will live at.
    pub escrow: u64,
    /// The address of the new custody account.
    pub vault: u64,
    /// The disambiguation value of the record-address derivation.
    pub escrow_bump: u8,
}

/// The precondition check of an open, in the order the operation tests it:
/// the first failing condition names the error, and `None` means the open is
/// owed success.
pub open spec fn make_check(v: LedgerView, cx: Make) -> Option<EscrowError> {
    if has_escrow_key(v.escrows, cx.maker, cx.seed) {
        // One open escrow per (maker, seed): the record address is derived
        // from that pair.
        Some(EscrowError::StateConflict)
    } else if has_escrow_addr(v.escrows, cx.escrow) || has_acct(v.accounts, cx.escrow)
        || cx.escrow == cx.maker || maker_in_use(v.escrows, cx.escrow) {
        // The record address must be fresh: not a stored record, not a token
        // account, and not an identity already acting as a party.
        Some(EscrowError::StateConflict)
    } else if has_acct(v.accounts, cx.vault) || cx.vault == cx.escrow
        || has_escrow_addr(v.escrows, cx.vault) {
        // The vault address must be fresh as well.
        Some(EscrowError::StateConflict)
    } else if authority_in_use(v.accounts, cx.escrow) {
        // Nothing may already be controlled by the record's derived address:
        // that address must control the vault and nothing else.
        Some(EscrowError::StateConflict)
    } else if has_escrow_addr(v.escrows, cx.maker) {
        // A derived record address has no key, so it cannot authorize an
        // open.
        Some(EscrowError::Authorization)
    } else if !has_acct(v.accounts, cx.maker_ata_x) {
        Some(EscrowError::Authorization)
    } else if acct_of(v.accounts, cx.maker_ata_x).authority != cx.maker {
        Some(EscrowError::Authorization)
    } else if acct_of(v.accounts, cx.maker_ata_x).mint != cx.mint_x {
        Some(EscrowError::AssetTypeMismatch)
    } else if acct_of(v.accounts, cx.maker_ata_x).balance < cx.amount_x {
        Some(EscrowError::InsufficientFunds)
    } else {
        None
    }
}

/// The effect of a successful open: the source account is debited by
/// `amount_x`, a vault holding exactly `amount_x` and controlled by the
/// record's derived address is created, and the record itself is stored.
pub open spec fn make_apply(v: LedgerView, cx: Make) -> LedgerView
    recommends
        make_check(v, cx) is None,
{
    let i = acct_at(v.accounts, cx.maker_ata_x);
    let src = v.accounts[i];
    let debited = TokenAccount {
        addr: src.addr,
        mint: src.mint,
        authority: src.authority,
        balance: (src.balance - cx.amount_x) as u64,
    };
    let vault_acct = TokenAccount {
        addr: cx.vault,
        mint: cx.mint_x,
        authority: cx.escrow,
        balance: cx.amount_x,
    };
    let record = Escrow {
        maker: cx.maker,
        vault: cx.vault,
        mint_x: cx.mint_x,
        mint_y: cx.mint_y,
        amount_x: cx.amount_x,
        amount_y: cx.amount_y,
        seed: cx.seed,
        escrow_bump: cx.escrow_bump,
    };
    LedgerView {
        accounts: v.accounts.update(i, debited).push(vault_acct),
        escrows: v.escrows.push(EscrowAccount { addr: cx.escrow, record }),
    }
}

/// A successful open preserves every ledger invariant.
pub proof fn lemma_make_wf(v: LedgerView, cx: Make)
    requires
        wf(v),
        make_check(v, cx) is None,
    ensures
        wf(make_apply(v, cx)),
{
    let w = make_apply(v, cx);
    let n = v.accounts.len() as int;
    let m = v.escrows.len() as int;
    let i = acct_at(v.accounts, cx.maker_ata_x);
    assert(0 <= i < n && v.accounts[i].addr == cx.maker_ata_x);

    assert forall|p: int, q: int| 0 <= p < q < w.accounts.len()
        implies (#[trigger] w.accounts[p]).addr != (#[trigger] w.accounts[q]).addr by {
        assert(w.accounts[p].addr == v.accounts[p].addr);
        if q == n {
            assert(v.accounts[p].addr != cx.vault);
        } else {
            assert(w.accounts[q].addr == v.accounts[q].addr);
        }
    }

    assert forall|p: int, q: int| 0 <= p < q < w.escrows.len()
        implies (#[trigger] w.escrows[p]).addr != (#[trigger] w.escrows[q]).addr by {
        if q == m {
            assert(v.escrows[p].addr != cx.escrow);
        }
    }

    assert forall|p: int, q: int| 0 <= p < q < w.escrows.len()
        implies !((#[trigger] w.escrows[p]).record.maker == (#[trigger] w.escrows[q]).record.maker
            && w.escrows[p].record.seed == w.escrows[q].record.seed) by {
        if q == m {
            assert(!(v.escrows[p].record.maker == cx.maker && v.escrows[p].record.seed == cx.seed));
        }
    }

    assert forall|j: int| 0 <= j < w.escrows.len()
        implies has_acct(w.accounts, (#[trigger] w.escrows[j]).record.vault) by {
        if j == m {
            assert(w.accounts[n].addr == cx.vault);
        } else {
            let x = v.escrows[j].record.vault;
            let k = choose|k: int| 0 <= k < v.accounts.len() && v.accounts[k].addr == x;
            assert(w.accounts[k].addr == x);
        }
    }

    assert forall|j: int, p: int|
        0 <= j < w.escrows.len() && 0 <= p < w.accounts.len()
            && (#[trigger] w.accounts[p]).addr == (#[trigger] w.escrows[j]).record.vault
        implies w.accounts[p].mint == w.escrows[j].record.mint_x
            && w.accounts[p].authority == w.escrows[j].addr
            && w.accounts[p].balance == w.escrows[j].record.amount_x by {
        if j == m {
            // The new record's vault is the freshly pushed account.
            if p < n {
                assert(w.accounts[p].addr == v.accounts[p].addr);
                assert(v.accounts[p].addr != cx.vault);
            }
        } else {
            let x = v.escrows[j].record.vault;
            if p == n {
                // The fresh vault address names no pre-existing vault.
                let k = choose|k: int| 0 <= k < v.accounts.len() && v.accounts[k].addr == x;
                assert(v.accounts[k].addr != cx.vault);
                assert(false);
            } else if p == i {
                // The debited source is owned by the maker, never by a
                // derived record address, so it is no vault.
                assert(v.accounts[i].addr == x);
                assert(v.accounts[i].authority == v.escrows[j].addr);
                assert(v.accounts[i].authority == cx.maker);
                assert(v.escrows[j].addr != cx.maker);
                assert(false);
            } else {
                assert(w.accounts[p] == v.accounts[p]);
            }
        }
    }

    assert forall|j: int, p: int|
        0 <= j < w.escrows.len() && 0 <= p < w.accounts.len()
            && (#[trigger] w.accounts[p]).authority == (#[trigger] w.escrows[j]).addr
        implies w.accounts[p].addr == w.escrows[j].record.vault by {
        if j == m {
            if p == i {
                assert(w.accounts[p].authority == cx.maker);
            } else if p < n {
                assert(w.accounts[p].authority == v.accounts[p].authority);
                assert(!authority_in_use(v.accounts, cx.escrow));
                assert(v.accounts[p].authority != cx.escrow);
            }
        } else {
            if p == n {
                assert(v.escrows[j].addr != cx.escrow);
                assert(false);
            } else if p == i {
                assert(v.accounts[i].authority == cx.maker);
                assert(v.escrows[j].addr != cx.maker);
                assert(false);
            } else {
                assert(w.accounts[p] == v.accounts[p]);
            }
        }
    }

    assert forall|p: int, q: int| 0 <= p < w.escrows.len() && 0 <= q < w.escrows.len()
        implies (#[trigger] w.escrows[p]).record.maker != (#[trigger] w.escrows[q]).addr by {
        if p == m && q < m {
            assert(v.escrows[q].addr != cx.maker);
        } else if p < m && q == m {
            assert(v.escrows[p].record.maker != cx.escrow);
        }
    }
}

impl Ledger {
    /// Open an escrow: store the record at its derived address, create the
    /// vault under the record's authority, and move `amount_x` of asset X
    /// from the maker's source account into it — or reject with no effect.
    ///
    /// The result and the new ledger are exactly what `make_check` and
    /// `make_apply` say of the old one: success if and only if no listed
    /// precondition fails, and every failure leaves the ledger untouched.
    pub fn make(&mut self, cx: Make) -> (r: Result<(), EscrowError>)
        requires
            wf(old(self)@),
        ensures
            match make_check(old(self)@, cx) {
                Some(e) => r == Err::<(), EscrowError>(e) && final(self)@ == old(self)@,
                None => r == Ok::<(), EscrowError>(()) && final(self)@ == make_apply(
                    old(self)@,
                    cx,
                ),
            },
            wf(final(self)@),
    {
        if self.escrow_key_exists(cx.maker, cx.seed) {
            return Err(EscrowError::StateConflict);
        }
        if self.escrow_addr_exists(cx.escrow) || self.account_exists(cx.escrow)
            || cx.escrow == cx.maker || self.maker_exists(cx.escrow) {
            return Err(EscrowError::StateConflict);
        }
        if self.account_exists(cx.vault) || cx.vault == cx.escrow
            || self.escrow_addr_exists(cx.vault) {
            return Err(EscrowError::StateConflict);
        }
        if self.authority_exists(cx.escrow) {
            return Err(EscrowError::StateConflict);
        }
        if self.escrow_addr_exists(cx.maker) {
            return Err(EscrowError::Authorization);
        }
        match self.find_account(cx.maker_ata_x) {
            None => Err(EscrowError::Authorization),
            Some(i) => {
                proof {
                    lemma_acct_at_is(self@.accounts, cx.maker_ata_x, i as int);
                }
                let src = self.accounts[i];
                if src.authority != cx.maker {
                    Err(EscrowError::Authorization)
                } else if src.mint != cx.mint_x {
                    Err(EscrowError::AssetTypeMismatch)
                } else if src.balance < cx.amount_x {
                    Err(EscrowError::InsufficientFunds)
                } else {
                    let debited = TokenAccount {
                        addr: src.addr,
                        mint: src.mint,
                        authority: src.authority,
                        balance: src.balance - cx.amount_x,
                    };
                    self.accounts[i] = debited;
                    self.accounts.push(TokenAccount {
                        addr: cx.vault,
                        mint: cx.mint_x,
                        authority: cx.escrow,
                        balance: cx.amount_x,
                    });
                    let record = Escrow {
                        maker: cx.maker,
                        vault: cx.vault,
                        mint_x: cx.mint_x,
                        mint_y: cx.mint_y,
                        amount_x: cx.amount_x,
                        amount_y: cx.amount_y,
                        seed: cx.seed,
                        escrow_bump: cx.escrow_bump,
                    };
                    self.escrows.push(EscrowAccount { addr: cx.escrow, record });
                    proof {
                        lemma_make_wf(old(self)@, cx);
                    }
                    Ok(())
                }
            },
        }
    }
}

} // verus!
