use vstd::prelude::*;

use crate::error::EscrowError;
use crate::ledger::{
    Ledger, LedgerView, TokenAccount, has_acct, acct_at, acct_of, has_escrow_addr, escrow_at,
    escrow_of, wf, lemma_acct_at_is, lemma_escrow_at_is,
};

verus! {

/// The account set of a cancel: the maker reclaims the deposit of the
/// escrow stored at `escrow`, whose vault is `vault`, into `maker_ata_x`.
#[derive(Clone, Copy, PartialEq, Eq, Structural, Debug)]
pub struct Refund {
    /// The caller, who must be the maker named in the record.
    pub maker: u64,
    /// The address of the escrow record being cancelled.
    pub escrow: u64,
    /// The custody account named by the caller; it must match the record.
    pub vault: u64,
    /// The maker's asset-X account that receives the deposit back.
    pub maker_ata_x: u64,
}

/// The precondition check of a cancel, in the order the operation tests it.
pub open spec fn refund_check(v: LedgerView, cx: Refund) -> Option<EscrowError> {
    if !has_escrow_addr(v.escrows, cx.escrow) {
        // No record lives at the named address: nothing to cancel.
        Some(EscrowError::StateConflict)
    } else if cx.maker != escrow_of(v.escrows, cx.escrow).record.maker {
        // Cancellation is unilateral by the maker alone.
        Some(EscrowError::Authorization)
    } else if cx.vault != escrow_of(v.escrows, cx.escrow).record.vault {
        // The named vault does not match the stored derivation.
        Some(EscrowError::StateConflict)
    } else if !has_acct(v.accounts, cx.maker_ata_x) {
        Some(EscrowError::Authorization)
    } else if acct_of(v.accounts, cx.maker_ata_x).authority != cx.maker {
        Some(EscrowError::Authorization)
    } else if acct_of(v.accounts, cx.maker_ata_x).mint != escrow_of(
        v.escrows,
        cx.escrow,
    ).record.mint_x {
        Some(EscrowError::AssetTypeMismatch)
    } else {
        None
    }
}

/// The machine bound a cancel needs: the destination balance plus the
/// reclaimed amount must fit in a 64-bit counter.
pub open spec fn refund_fits(v: LedgerView, cx: Refund) -> bool {
    has_escrow_addr(v.escrows, cx.escrow) && has_acct(v.accounts, cx.maker_ata_x)
        ==> acct_of(v.accounts, cx.maker_ata_x).balance + escrow_of(
        v.escrows,
        cx.escrow,
    ).record.amount_x <= u64::MAX
}

/// The effect of a successful cancel: the vault's whole deposit goes back
/// to the maker's asset-X account, and the vault and the record are both
/// destroyed.
pub open spec fn refund_apply(v: LedgerView, cx: Refund) -> LedgerView
    recommends
        refund_check(v, cx) is None,
{
    let ei = escrow_at(v.escrows, cx.escrow);
    let e = v.escrows[ei];
    let di = acct_at(v.accounts, cx.maker_ata_x);
    let vi = acct_at(v.accounts, e.record.vault);
    let dst = v.accounts[di];
    let credited = TokenAccount {
        addr: dst.addr,
        mint: dst.mint,
        authority: dst.authority,
        balance: (dst.balance + e.record.amount_x) as u64,
    };
    LedgerView {
        accounts: v.accounts.update(di, credited).remove(vi),
        escrows: v.escrows.remove(ei),
    }
}

/// In a well-formed ledger, the destination account of a cancel that passes
/// every check is never the vault itself, and the vault's index is shared
/// with no other escrow.
proof fn lemma_refund_indexes(v: LedgerView, cx: Refund)
    requires
        wf(v),
        refund_check(v, cx) is None,
    ensures
        ({
            let ei = escrow_at(v.escrows, cx.escrow);
            let e = v.escrows[ei];
            let di = acct_at(v.accounts, cx.maker_ata_x);
            let vi = acct_at(v.accounts, e.record.vault);
            &&& 0 <= ei < v.escrows.len() && e.addr == cx.escrow
            &&& 0 <= di < v.accounts.len() && v.accounts[di].addr == cx.maker_ata_x
            &&& 0 <= vi < v.accounts.len() && v.accounts[vi].addr == e.record.vault
            &&& v.accounts[vi].authority == e.addr
            &&& v.accounts[vi].balance == e.record.amount_x
            &&& v.accounts[vi].mint == e.record.mint_x
            &&& di != vi
        }),
{
    let ei = escrow_at(v.escrows, cx.escrow);
    let e = v.escrows[ei];
    assert(0 <= ei < v.escrows.len() && e.addr == cx.escrow);
    assert(has_acct(v.accounts, e.record.vault));
    let di = acct_at(v.accounts, cx.maker_ata_x);
    let vi = acct_at(v.accounts, e.record.vault);
    assert(0 <= di < v.accounts.len() && v.accounts[di].addr == cx.maker_ata_x);
    assert(0 <= vi < v.accounts.len() && v.accounts[vi].addr == e.record.vault);
    assert(v.accounts[vi].authority == e.addr && v.accounts[vi].balance == e.record.amount_x
        && v.accounts[vi].mint == e.record.mint_x);
    if di == vi {
        // The vault is controlled by the derived record address, the
        // destination by the maker — and no maker is a record address.
        assert(v.accounts[di].authority == cx.maker);
        assert(e.record.maker != e.addr);
        assert(false);
    }
}

/// A successful cancel preserves every ledger invariant.
pub proof fn lemma_refund_wf(v: LedgerView, cx: Refund)
    requires
        wf(v),
        refund_check(v, cx) is None,
    ensures
        wf(refund_apply(v, cx)),
{
    lemma_refund_indexes(v, cx);
    let ei = escrow_at(v.escrows, cx.escrow);
    let e = v.escrows[ei];
    let di = acct_at(v.accounts, cx.maker_ata_x);
    let vi = acct_at(v.accounts, e.record.vault);
    let dst = v.accounts[di];
    let credited = TokenAccount {
        addr: dst.addr,
        mint: dst.mint,
        authority: dst.authority,
        balance: (dst.balance + e.record.amount_x) as u64,
    };
    let u = v.accounts.update(di, credited);
    let w = refund_apply(v, cx);
    u.remove_ensures(vi);
    v.escrows.remove_ensures(ei);
    assert(w.accounts == u.remove(vi));
    assert(w.escrows == v.escrows.remove(ei));

    // Every surviving account keeps its address, mint and authority; only
    // the destination's balance changed.  Map each new index to its old one.
    assert forall|k: int| 0 <= k < w.accounts.len() implies {
        let p = if k < vi { k } else { k + 1 };
        &&& #[trigger] w.accounts[k] == u[p]
        &&& w.accounts[k].addr == v.accounts[p].addr
        &&& w.accounts[k].mint == v.accounts[p].mint
        &&& w.accounts[k].authority == v.accounts[p].authority
        &&& (p != di ==> w.accounts[k] == v.accounts[p])
    } by {
        let p = if k < vi { k } else { k + 1 };
        assert(w.accounts[k] == u[p]);
    }

    assert forall|j: int| 0 <= j < w.escrows.len() implies {
        let q = if j < ei { j } else { j + 1 };
        #[trigger] w.escrows[j] == v.escrows[q]
    } by {
        let q = if j < ei { j } else { j + 1 };
        assert(w.escrows[j] == v.escrows[q]);
    }

    assert forall|p: int, q: int| 0 <= p < q < w.accounts.len()
        implies (#[trigger] w.accounts[p]).addr != (#[trigger] w.accounts[q]).addr by {
        let p0 = if p < vi { p } else { p + 1 };
        let q0 = if q < vi { q } else { q + 1 };
        assert(w.accounts[p].addr == v.accounts[p0].addr);
        assert(w.accounts[q].addr == v.accounts[q0].addr);
    }

    assert forall|p: int, q: int| 0 <= p < q < w.escrows.len()
        implies (#[trigger] w.escrows[p]).addr != (#[trigger] w.escrows[q]).addr by {
        let p0 = if p < ei { p } else { p + 1 };
        let q0 = if q < ei { q } else { q + 1 };
        assert(w.escrows[p] == v.escrows[p0]);
        assert(w.escrows[q] == v.escrows[q0]);
    }

    assert forall|p: int, q: int| 0 <= p < q < w.escrows.len()
        implies !((#[trigger] w.escrows[p]).record.maker == (#[trigger] w.escrows[q]).record.maker
            && w.escrows[p].record.seed == w.escrows[q].record.seed) by {
        let p0 = if p < ei { p } else { p + 1 };
        let q0 = if q < ei { q } else { q + 1 };
        assert(w.escrows[p] == v.escrows[p0]);
        assert(w.escrows[q] == v.escrows[q0]);
    }

    // No two distinct escrows share a vault account, so every surviving
    // escrow's vault survives too.
    assert forall|j: int| 0 <= j < w.escrows.len()
        implies has_acct(w.accounts, (#[trigger] w.escrows[j]).record.vault) by {
        let q = if j < ei { j } else { j + 1 };
        assert(w.escrows[j] == v.escrows[q]);
        let x = v.escrows[q].record.vault;
        assert(has_acct(v.accounts, x));
        let k = choose|k: int| 0 <= k < v.accounts.len() && v.accounts[k].addr == x;
        if k == vi {
            // Then the cancelled escrow and this one would share the vault:
            // its authority equals both derived addresses.
            assert(v.accounts[vi].authority == v.escrows[q].addr);
            assert(v.accounts[vi].authority == e.addr);
            assert(q == ei);
            assert(false);
        }
        let knew = if k < vi { k } else { k - 1 };
        assert(w.accounts[knew].addr == x);
    }

    assert forall|j: int, p: int|
        0 <= j < w.escrows.len() && 0 <= p < w.accounts.len()
            && (#[trigger] w.accounts[p]).addr == (#[trigger] w.escrows[j]).record.vault
        implies w.accounts[p].mint == w.escrows[j].record.mint_x
            && w.accounts[p].authority == w.escrows[j].addr
            && w.accounts[p].balance == w.escrows[j].record.amount_x by {
        let p0 = if p < vi { p } else { p + 1 };
        let q0 = if j < ei { j } else { j + 1 };
        assert(w.escrows[j] == v.escrows[q0]);
        if p0 == di {
            // The destination is the maker's account; a maker is never a
            // derived record address, so it cannot be anyone's vault.
            assert(v.accounts[di].addr == v.escrows[q0].record.vault);
            assert(v.accounts[di].authority == v.escrows[q0].addr);
            assert(v.accounts[di].authority == cx.maker);
            assert(e.record.maker != v.escrows[q0].addr);
            assert(false);
        } else {
            assert(w.accounts[p] == v.accounts[p0]);
        }
    }

    assert forall|j: int, p: int|
        0 <= j < w.escrows.len() && 0 <= p < w.accounts.len()
            && (#[trigger] w.accounts[p]).authority == (#[trigger] w.escrows[j]).addr
        implies w.accounts[p].addr == w.escrows[j].record.vault by {
        let p0 = if p < vi { p } else { p + 1 };
        let q0 = if j < ei { j } else { j + 1 };
        assert(w.escrows[j] == v.escrows[q0]);
        assert(w.accounts[p].authority == v.accounts[p0].authority);
        assert(v.accounts[p0].addr == v.escrows[q0].record.vault);
        assert(w.accounts[p].addr == v.accounts[p0].addr);
    }

    assert forall|p: int, q: int| 0 <= p < w.escrows.len() && 0 <= q < w.escrows.len()
        implies (#[trigger] w.escrows[p]).record.maker != (#[trigger] w.escrows[q]).addr by {
        let p0 = if p < ei { p } else { p + 1 };
        let q0 = if q < ei { q } else { q + 1 };
        assert(w.escrows[p] == v.escrows[p0]);
        assert(w.escrows[q] == v.escrows[q0]);
    }
}

impl Ledger {
    /// Cancel an open escrow: move the vault's whole deposit back to the
    /// maker's asset-X account, then destroy the vault and the record — or
    /// reject with no effect.
    ///
    /// Available to the maker alone, at any time between the open and a
    /// take; the result and the new ledger are exactly what `refund_check`
    /// and `refund_apply` say of the old one.
    pub fn refund(&mut self, cx: Refund) -> (r: Result<(), EscrowError>)
        requires
            wf(old(self)@),
            refund_fits(old(self)@, cx),
        ensures
            match refund_check(old(self)@, cx) {
                Some(e) => r == Err::<(), EscrowError>(e) && final(self)@ == old(self)@,
                None => r == Ok::<(), EscrowError>(()) && final(self)@ == refund_apply(
                    old(self)@,
                    cx,
                ),
            },
            wf(final(self)@),
    {
        let oei = self.find_escrow(cx.escrow);
        match oei {
            None => Err(EscrowError::StateConflict),
            Some(ei) => {
                proof {
                    lemma_escrow_at_is(self@.escrows, cx.escrow, ei as int);
                }
                let rec = self.escrows[ei].record;
                if cx.maker != rec.maker {
                    return Err(EscrowError::Authorization);
                }
                if cx.vault != rec.vault {
                    return Err(EscrowError::StateConflict);
                }
                match self.find_account(cx.maker_ata_x) {
                    None => Err(EscrowError::Authorization),
                    Some(di) => {
                        proof {
                            lemma_acct_at_is(self@.accounts, cx.maker_ata_x, di as int);
                        }
                        let dst = self.accounts[di];
                        if dst.authority != cx.maker {
                            return Err(EscrowError::Authorization);
                        }
                        if dst.mint != rec.mint_x {
                            return Err(EscrowError::AssetTypeMismatch);
                        }
                        proof {
                            lemma_refund_indexes(self@, cx);
                        }
                        let ovi = self.find_account(cx.vault);
                        match ovi {
                            None => {
                                // Well-formedness guarantees every open
                                // escrow's vault exists, so this branch is
                                // provably unreachable.
                                proof {
                                    assert(false);
                                }
                                Err(EscrowError::StateConflict)
                            },
                            Some(vi) => {
                                proof {
                                    lemma_acct_at_is(self@.accounts, rec.vault, vi as int);
                                }
                                let credited = TokenAccount {
                                    addr: dst.addr,
                                    mint: dst.mint,
                                    authority: dst.authority,
                                    balance: dst.balance + rec.amount_x,
                                };
                                self.accounts[di] = credited;
                                self.accounts.remove(vi);
                                self.escrows.remove(ei);
                                proof {
                                    lemma_refund_wf(old(self)@, cx);
                                }
                                Ok(())
                            },
                        }
                    },
                }
            },
        }
    }
}

} // verus!
