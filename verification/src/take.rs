use vstd::prelude::*;

use crate::error::EscrowError;
use crate::ledger::{
    Ledger, LedgerView, TokenAccount, has_acct, acct_at, acct_of, has_escrow_addr, escrow_at,
    escrow_of, wf, lemma_acct_at_is, lemma_escrow_at_is,
};

verus! {

/// The account set of a settle: any taker fulfils the trade posted by
/// `maker` at the record address `escrow`, paying from `taker_ata_y` into
/// `maker_ata_y` and receiving the vault's deposit into `taker_ata_x`.
///
/// The amounts are never supplied here: they are read from the stored
/// record, so a taker cannot settle on different terms than the maker
/// posted.
#[derive(Clone, Copy, PartialEq, Eq, Structural, Debug)]
pub struct Take {
    /// The maker named by the caller; it must match the stored record.
    pub maker: u64,
    /// The caller fulfilling the trade.  Any identity may stand here.
    pub taker: u64,
    /// The address of the escrow record being settled.
    pub escrow: u64,
    /// The custody account named by the caller; it must match the record.
    pub vault: u64,
    /// The taker's asset-Y account that pays the maker.
    pub taker_ata_y: u64,
    /// The maker's asset-Y account that receives the payment.
    pub maker_ata_y: u64,
    /// The taker's asset-X account that receives the deposit.
    pub taker_ata_x: u64,
}

/// The precondition check of a settle, in the order the operation tests it.
pub open spec fn take_check(v: LedgerView, cx: Take) -> Option<EscrowError> {
    if !has_escrow_addr(v.escrows, cx.escrow) {
        // No record lives at the named address: nothing to settle.
        Some(EscrowError::StateConflict)
    } else if cx.maker != escrow_of(v.escrows, cx.escrow).record.maker {
        // The named maker does not reproduce the stored derivation.
        Some(EscrowError::Authorization)
    } else if cx.vault != escrow_of(v.escrows, cx.escrow).record.vault {
        // The named vault does not match the stored derivation.
        Some(EscrowError::StateConflict)
    } else if has_escrow_addr(v.escrows, cx.taker) {
        // A derived record address has no key, so it cannot authorize the
        // payment.
        Some(EscrowError::Authorization)
    } else if !has_acct(v.accounts, cx.taker_ata_y) {
        Some(EscrowError::Authorization)
    } else if acct_of(v.accounts, cx.taker_ata_y).authority != cx.taker {
        Some(EscrowError::Authorization)
    } else if acct_of(v.accounts, cx.taker_ata_y).mint != escrow_of(
        v.escrows,
        cx.escrow,
    ).record.mint_y {
        Some(EscrowError::AssetTypeMismatch)
    } else if acct_of(v.accounts, cx.taker_ata_y).balance < escrow_of(
        v.escrows,
        cx.escrow,
    ).record.amount_y {
        Some(EscrowError::InsufficientFunds)
    } else if !has_acct(v.accounts, cx.maker_ata_y) {
        Some(EscrowError::Authorization)
    } else if acct_of(v.accounts, cx.maker_ata_y).authority != escrow_of(
        v.escrows,
        cx.escrow,
    ).record.maker {
        Some(EscrowError::Authorization)
    } else if acct_of(v.accounts, cx.maker_ata_y).mint != escrow_of(
        v.escrows,
        cx.escrow,
    ).record.mint_y {
        Some(EscrowError::AssetTypeMismatch)
    } else if !has_acct(v.accounts, cx.taker_ata_x) {
        Some(EscrowError::Authorization)
    } else if acct_of(v.accounts, cx.taker_ata_x).authority != cx.taker {
        Some(EscrowError::Authorization)
    } else if acct_of(v.accounts, cx.taker_ata_x).mint != escrow_of(
        v.escrows,
        cx.escrow,
    ).record.mint_x {
        Some(EscrowError::AssetTypeMismatch)
    } else {
        None
    }
}

/// The three caller-named accounts of a settle are distinct accounts.
pub open spec fn take_distinct(cx: Take) -> bool {
    cx.taker_ata_y != cx.maker_ata_y && cx.taker_ata_y != cx.taker_ata_x && cx.maker_ata_y
        != cx.taker_ata_x
}

/// The machine bound a settle needs: both credited balances must fit in a
/// 64-bit counter.
pub open spec fn take_fits(v: LedgerView, cx: Take) -> bool {
    has_escrow_addr(v.escrows, cx.escrow) ==> {
        let e = escrow_of(v.escrows, cx.escrow);
        &&& (has_acct(v.accounts, cx.maker_ata_y) ==> acct_of(v.accounts, cx.maker_ata_y).balance
            + e.record.amount_y <= u64::MAX)
        &&& (has_acct(v.accounts, cx.taker_ata_x) ==> acct_of(v.accounts, cx.taker_ata_x).balance
            + e.record.amount_x <= u64::MAX)
    }
}

/// The effect of a successful settle: `amount_y` moves from the taker to
/// the maker, the vault's whole deposit of `amount_x` moves to the taker,
/// and the vault and the record are both destroyed.
pub open spec fn take_apply(v: LedgerView, cx: Take) -> LedgerView
    recommends
        take_check(v, cx) is None,
{
    let ei = escrow_at(v.escrows, cx.escrow);
    let e = v.escrows[ei];
    let ty = acct_at(v.accounts, cx.taker_ata_y);
    let my = acct_at(v.accounts, cx.maker_ata_y);
    let tx = acct_at(v.accounts, cx.taker_ata_x);
    let vi = acct_at(v.accounts, e.record.vault);
    let pay = v.accounts[ty];
    let recv = v.accounts[my];
    let dst = v.accounts[tx];
    let paid = TokenAccount {
        addr: pay.addr,
        mint: pay.mint,
        authority: pay.authority,
        balance: (pay.balance - e.record.amount_y) as u64,
    };
    let received = TokenAccount {
        addr: recv.addr,
        mint: recv.mint,
        authority: recv.authority,
        balance: (recv.balance + e.record.amount_y) as u64,
    };
    let claimed = TokenAccount {
        addr: dst.addr,
        mint: dst.mint,
        authority: dst.authority,
        balance: (dst.balance + e.record.amount_x) as u64,
    };
    LedgerView {
        accounts: v.accounts.update(ty, paid).update(my, received).update(tx, claimed).remove(vi),
        escrows: v.escrows.remove(ei),
    }
}

/// In a well-formed ledger, the four accounts a passing settle touches sit
/// at four distinct indexes, and the vault holds exactly the deposit.
pub(crate) proof fn lemma_take_indexes(v: LedgerView, cx: Take)
    requires
        wf(v),
        take_distinct(cx),
        take_check(v, cx) is None,
    ensures
        ({
            let ei = escrow_at(v.escrows, cx.escrow);
            let e = v.escrows[ei];
            let ty = acct_at(v.accounts, cx.taker_ata_y);
            let my = acct_at(v.accounts, cx.maker_ata_y);
            let tx = acct_at(v.accounts, cx.taker_ata_x);
            let vi = acct_at(v.accounts, e.record.vault);
            &&& 0 <= ei < v.escrows.len() && e.addr == cx.escrow
            &&& 0 <= ty < v.accounts.len() && v.accounts[ty].addr == cx.taker_ata_y
            &&& 0 <= my < v.accounts.len() && v.accounts[my].addr == cx.maker_ata_y
            &&& 0 <= tx < v.accounts.len() && v.accounts[tx].addr == cx.taker_ata_x
            &&& 0 <= vi < v.accounts.len() && v.accounts[vi].addr == e.record.vault
            &&& v.accounts[vi].authority == e.addr
            &&& v.accounts[vi].balance == e.record.amount_x
            &&& v.accounts[vi].mint == e.record.mint_x
            &&& ty != my && ty != tx && my != tx
            &&& vi != ty && vi != my && vi != tx
        }),
{
    let ei = escrow_at(v.escrows, cx.escrow);
    let e = v.escrows[ei];
    assert(0 <= ei < v.escrows.len() && e.addr == cx.escrow);
    assert(has_acct(v.accounts, e.record.vault));
    let ty = acct_at(v.accounts, cx.taker_ata_y);
    let my = acct_at(v.accounts, cx.maker_ata_y);
    let tx = acct_at(v.accounts, cx.taker_ata_x);
    let vi = acct_at(v.accounts, e.record.vault);
    assert(0 <= ty < v.accounts.len() && v.accounts[ty].addr == cx.taker_ata_y);
    assert(0 <= my < v.accounts.len() && v.accounts[my].addr == cx.maker_ata_y);
    assert(0 <= tx < v.accounts.len() && v.accounts[tx].addr == cx.taker_ata_x);
    assert(0 <= vi < v.accounts.len() && v.accounts[vi].addr == e.record.vault);
    assert(v.accounts[vi].authority == e.addr && v.accounts[vi].balance == e.record.amount_x
        && v.accounts[vi].mint == e.record.mint_x);
    // The taker is no derived record address, so the taker's accounts are
    // no vault; the maker is none either.
    if vi == ty {
        assert(v.accounts[ty].authority == cx.taker);
        assert(false);
    }
    if vi == tx {
        assert(v.accounts[tx].authority == cx.taker);
        assert(false);
    }
    if vi == my {
        assert(v.accounts[my].authority == e.record.maker);
        assert(e.record.maker != e.addr);
        assert(false);
    }
}

/// A successful settle preserves every ledger invariant.
pub proof fn lemma_take_wf(v: LedgerView, cx: Take)
    requires
        wf(v),
        take_distinct(cx),
        take_check(v, cx) is None,
    ensures
        wf(take_apply(v, cx)),
{
    lemma_take_indexes(v, cx);
    let ei = escrow_at(v.escrows, cx.escrow);
    let e = v.escrows[ei];
    let ty = acct_at(v.accounts, cx.taker_ata_y);
    let my = acct_at(v.accounts, cx.maker_ata_y);
    let tx = acct_at(v.accounts, cx.taker_ata_x);
    let vi = acct_at(v.accounts, e.record.vault);
    let w = take_apply(v, cx);
    let pay = v.accounts[ty];
    let recv = v.accounts[my];
    let dst = v.accounts[tx];
    let paid = TokenAccount {
        addr: pay.addr,
        mint: pay.mint,
        authority: pay.authority,
        balance: (pay.balance - e.record.amount_y) as u64,
    };
    let received = TokenAccount {
        addr: recv.addr,
        mint: recv.mint,
        authority: recv.authority,
        balance: (recv.balance + e.record.amount_y) as u64,
    };
    let claimed = TokenAccount {
        addr: dst.addr,
        mint: dst.mint,
        authority: dst.authority,
        balance: (dst.balance + e.record.amount_x) as u64,
    };
    let u3b = v.accounts.update(ty, paid).update(my, received).update(tx, claimed);
    u3b.remove_ensures(vi);
    v.escrows.remove_ensures(ei);
    assert(w.accounts == u3b.remove(vi));
    assert(w.escrows == v.escrows.remove(ei));

    // Every surviving account keeps its address, mint and authority; only
    // the three named balances changed.
    assert forall|k: int| 0 <= k < w.accounts.len() implies {
        let p = if k < vi { k } else { k + 1 };
        &&& #[trigger] w.accounts[k] == u3b[p]
        &&& w.accounts[k].addr == v.accounts[p].addr
        &&& w.accounts[k].mint == v.accounts[p].mint
        &&& w.accounts[k].authority == v.accounts[p].authority
        &&& (p != ty && p != my && p != tx ==> w.accounts[k] == v.accounts[p])
    } by {
        let p = if k < vi { k } else { k + 1 };
        assert(w.accounts[k] == u3b[p]);
    }

    assert forall|j: int| 0 <= j < w.escrows.len() implies {
        let q = if j < ei { j } else { j + 1 };
        #[trigger] w.escrows[j] == v.escrows[q]
    } by {
        let q = if j < ei { j } else { j + 1 };
        assert(w.escrows[j] == v.escrows[q]);
    }

    assert forall|p: int, q: int| 0 <= p < q < w.accounts.len()
        implies (#[trigger] w.accounts[p]).addr != (#[trigger] w.accounts[q]).addr by {
        let p0 = if p < vi { p } else { p + 1 };
        let q0 = if q < vi { q } else { q + 1 };
        assert(w.accounts[p].addr == v.accounts[p0].addr);
        assert(w.accounts[q].addr == v.accounts[q0].addr);
    }

    assert forall|p: int, q: int| 0 <= p < q < w.escrows.len()
        implies (#[trigger] w.escrows[p]).addr != (#[trigger] w.escrows[q]).addr by {
        let p0 = if p < ei { p } else { p + 1 };
        let q0 = if q < ei { q } else { q + 1 };
        assert(w.escrows[p] == v.escrows[p0]);
        assert(w.escrows[q] == v.escrows[q0]);
    }

    assert forall|p: int, q: int| 0 <= p < q < w.escrows.len()
        implies !((#[trigger] w.escrows[p]).record.maker == (#[trigger] w.escrows[q]).record.maker
            && w.escrows[p].record.seed == w.escrows[q].record.seed) by {
        let p0 = if p < ei { p } else { p + 1 };
        let q0 = if q < ei { q } else { q + 1 };
        assert(w.escrows[p] == v.escrows[p0]);
        assert(w.escrows[q] == v.escrows[q0]);
    }

    assert forall|j: int| 0 <= j < w.escrows.len()
        implies has_acct(w.accounts, (#[trigger] w.escrows[j]).record.vault) by {
        let q = if j < ei { j } else { j + 1 };
        assert(w.escrows[j] == v.escrows[q]);
        let x = v.escrows[q].record.vault;
        assert(has_acct(v.accounts, x));
        let k = choose|k: int| 0 <= k < v.accounts.len() && v.accounts[k].addr == x;
        if k == vi {
            assert(v.accounts[vi].authority == v.escrows[q].addr);
            assert(v.accounts[vi].authority == e.addr);
            assert(q == ei);
            assert(false);
        }
        let knew = if k < vi { k } else { k - 1 };
        assert(w.accounts[knew].addr == x);
    }

    assert forall|j: int, p: int|
        0 <= j < w.escrows.len() && 0 <= p < w.accounts.len()
            && (#[trigger] w.accounts[p]).addr == (#[trigger] w.escrows[j]).record.vault
        implies w.accounts[p].mint == w.escrows[j].record.mint_x
            && w.accounts[p].authority == w.escrows[j].addr
            && w.accounts[p].balance == w.escrows[j].record.amount_x by {
        let p0 = if p < vi { p } else { p + 1 };
        let q0 = if j < ei { j } else { j + 1 };
        assert(w.escrows[j] == v.escrows[q0]);
        if p0 == ty || p0 == tx {
            // A taker account cannot be a vault: its authority is the
            // taker, never a derived record address.
            assert(v.accounts[p0].addr == v.escrows[q0].record.vault);
            assert(v.accounts[p0].authority == v.escrows[q0].addr);
            assert(v.accounts[p0].authority == cx.taker);
            assert(false);
        } else if p0 == my {
            // Nor can the maker's: no maker is a derived record address.
            assert(v.accounts[p0].addr == v.escrows[q0].record.vault);
            assert(v.accounts[p0].authority == v.escrows[q0].addr);
            assert(v.accounts[p0].authority == e.record.maker);
            assert(e.record.maker != v.escrows[q0].addr);
            assert(false);
        } else {
            assert(w.accounts[p] == v.accounts[p0]);
        }
    }

    assert forall|j: int, p: int|
        0 <= j < w.escrows.len() && 0 <= p < w.accounts.len()
            && (#[trigger] w.accounts[p]).authority == (#[trigger] w.escrows[j]).addr
        implies w.accounts[p].addr == w.escrows[j].record.vault by {
        let p0 = if p < vi { p } else { p + 1 };
        let q0 = if j < ei { j } else { j + 1 };
        assert(w.escrows[j] == v.escrows[q0]);
        assert(w.accounts[p].authority == v.accounts[p0].authority);
        assert(v.accounts[p0].addr == v.escrows[q0].record.vault);
        assert(w.accounts[p].addr == v.accounts[p0].addr);
    }

    assert forall|p: int, q: int| 0 <= p < w.escrows.len() && 0 <= q < w.escrows.len()
        implies (#[trigger] w.escrows[p]).record.maker != (#[trigger] w.escrows[q]).addr by {
        let p0 = if p < ei { p } else { p + 1 };
        let q0 = if q < ei { q } else { q + 1 };
        assert(w.escrows[p] == v.escrows[p0]);
        assert(w.escrows[q] == v.escrows[q0]);
    }
}

impl Ledger {
    /// Settle an open escrow: move `amount_y` of asset Y from the taker to
    /// the maker, move the vault's deposit of `amount_x` to the taker, then
    /// destroy the vault and the record — or reject with no effect.
    ///
    /// Anyone may be the taker: the checks constrain only the named
    /// accounts' types, authorities and balances, never the taker's
    /// identity.  The result and the new ledger are exactly what
    /// `take_check` and `take_apply` say of the old one.
    pub fn take(&mut self, cx: Take) -> (r: Result<(), EscrowError>)
        requires
            wf(old(self)@),
            take_distinct(cx),
            take_fits(old(self)@, cx),
        ensures
            match take_check(old(self)@, cx) {
                Some(e) => r == Err::<(), EscrowError>(e) && final(self)@ == old(self)@,
                None => r == Ok::<(), EscrowError>(()) && final(self)@ == take_apply(
                    old(self)@,
                    cx,
                ),
            },
            wf(final(self)@),
    {
        let oei = self.find_escrow(cx.escrow);
        match oei {
            None => Err(EscrowError::StateConflict),
            Some(ei) => {
                proof {
                    lemma_escrow_at_is(self@.escrows, cx.escrow, ei as int);
                }
                let rec = self.escrows[ei].record;
                if cx.maker != rec.maker {
                    return Err(EscrowError::Authorization);
                }
                if cx.vault != rec.vault {
                    return Err(EscrowError::StateConflict);
                }
                if self.escrow_addr_exists(cx.taker) {
                    return Err(EscrowError::Authorization);
                }
                let oty = self.find_account(cx.taker_ata_y);
                let ty = match oty {
                    None => {
                        return Err(EscrowError::Authorization);
                    },
                    Some(ty) => ty,
                };
                proof {
                    lemma_acct_at_is(self@.accounts, cx.taker_ata_y, ty as int);
                }
                let pay = self.accounts[ty];
                if pay.authority != cx.taker {
                    return Err(EscrowError::Authorization);
                }
                if pay.mint != rec.mint_y {
                    return Err(EscrowError::AssetTypeMismatch);
                }
                if pay.balance < rec.amount_y {
                    return Err(EscrowError::InsufficientFunds);
                }
                let omy = self.find_account(cx.maker_ata_y);
                let my = match omy {
                    None => {
                        return Err(EscrowError::Authorization);
                    },
                    Some(my) => my,
                };
                proof {
                    lemma_acct_at_is(self@.accounts, cx.maker_ata_y, my as int);
                }
                let recv = self.accounts[my];
                if recv.authority != rec.maker {
                    return Err(EscrowError::Authorization);
                }
                if recv.mint != rec.mint_y {
                    return Err(EscrowError::AssetTypeMismatch);
                }
                let otx = self.find_account(cx.taker_ata_x);
                let tx = match otx {
                    None => {
                        return Err(EscrowError::Authorization);
                    },
                    Some(tx) => tx,
                };
                proof {
                    lemma_acct_at_is(self@.accounts, cx.taker_ata_x, tx as int);
                }
                let dst = self.accounts[tx];
                if dst.authority != cx.taker {
                    return Err(EscrowError::Authorization);
                }
                if dst.mint != rec.mint_x {
                    return Err(EscrowError::AssetTypeMismatch);
                }
                proof {
                    lemma_take_indexes(self@, cx);
                }
                let ovi = self.find_account(cx.vault);
                match ovi {
                    None => {
                        // Well-formedness guarantees every open escrow's
                        // vault exists, so this branch is provably
                        // unreachable.
                        proof {
                            assert(false);
                        }
                        Err(EscrowError::StateConflict)
                    },
                    Some(vi) => {
                        proof {
                            lemma_acct_at_is(self@.accounts, rec.vault, vi as int);
                        }
                        let paid = TokenAccount {
                            addr: pay.addr,
                            mint: pay.mint,
                            authority: pay.authority,
                            balance: pay.balance - rec.amount_y,
                        };
                        let received = TokenAccount {
                            addr: recv.addr,
                            mint: recv.mint,
                            authority: recv.authority,
                            balance: recv.balance + rec.amount_y,
                        };
                        let claimed = TokenAccount {
                            addr: dst.addr,
                            mint: dst.mint,
                            authority: dst.authority,
                            balance: dst.balance + rec.amount_x,
                        };
                        self.accounts[ty] = paid;
                        self.accounts[my] = received;
                        self.accounts[tx] = claimed;
                        self.accounts.remove(vi);
                        self.escrows.remove(ei);
                        proof {
                            lemma_take_wf(old(self)@, cx);
                        }
                        Ok(())
                    },
                }
            },
        }
    }
}

} // verus!
