use vstd::prelude::*;

use crate::error::EscrowError;
use crate::ledger::{
    LedgerView, TokenAccount, has_acct, acct_at, acct_of, has_escrow_addr, escrow_at, escrow_of,
    authority_in_use, maker_in_use, has_escrow_key, wf, lemma_acct_at_is, lemma_escrow_at_is,
};
use crate::make::{Make, make_check, make_apply, lemma_make_wf};
use crate::take::{Take, take_check, take_apply, take_distinct, take_fits, lemma_take_wf};
use crate::refund::{Refund, refund_check, refund_apply};

verus! {

/// The refund that undoes a given open: same maker, same record and vault
/// addresses, and the deposit returned to the very account it came from.
pub open spec fn refund_of_make(mk: Make) -> Refund {
    Refund { maker: mk.maker, escrow: mk.escrow, vault: mk.vault, maker_ata_x: mk.maker_ata_x }
}

/// Round trip: an open followed immediately by its cancel is owed success
/// and returns the ledger — every balance, every account, every record —
/// to exactly its state before the open.  In particular the maker's
/// asset-X balance is restored and neither the record nor the vault is
/// left behind.
pub proof fn lemma_make_then_refund(v: LedgerView, mk: Make)
    requires
        wf(v),
        make_check(v, mk) is None,
    ensures
        refund_check(make_apply(v, mk), refund_of_make(mk)) is None,
        refund_apply(make_apply(v, mk), refund_of_make(mk)).accounts == v.accounts,
        refund_apply(make_apply(v, mk), refund_of_make(mk)).escrows == v.escrows,
{
    lemma_make_wf(v, mk);
    let v1 = make_apply(v, mk);
    let rf = refund_of_make(mk);
    let n = v.accounts.len() as int;
    let m = v.escrows.len() as int;
    let i = acct_at(v.accounts, mk.maker_ata_x);
    assert(0 <= i < n && v.accounts[i].addr == mk.maker_ata_x);
    let src = v.accounts[i];

    // Locate the pushed record and vault in the new ledger.
    lemma_escrow_at_is(v1.escrows, mk.escrow, m);
    lemma_acct_at_is(v1.accounts, mk.maker_ata_x, i);
    lemma_acct_at_is(v1.accounts, mk.vault, n);
    assert(refund_check(v1, rf) is None);

    // Crediting the deposit back restores the source account exactly.
    let v2 = refund_apply(v1, rf);
    let credited = TokenAccount {
        addr: v1.accounts[i].addr,
        mint: v1.accounts[i].mint,
        authority: v1.accounts[i].authority,
        balance: (v1.accounts[i].balance + mk.amount_x) as u64,
    };
    assert(credited == src);
    assert(v1.accounts.update(i, credited) =~= v.accounts.push(v1.accounts[n]));
    v.accounts.push(v1.accounts[n]).remove_ensures(n);
    assert(v2.accounts =~= v.accounts);
    v1.escrows.remove_ensures(m);
    assert(v2.escrows =~= v.escrows);
}

/// Trade fulfilment: an open followed by a settle of that same escrow pays
/// the maker exactly `amount_y` of asset Y, pays the taker exactly
/// `amount_x` of asset X out of custody, charges the taker exactly
/// `amount_y`, destroys the record and the vault, and touches no other
/// account.
pub proof fn lemma_make_then_take(v: LedgerView, mk: Make, tk: Take)
    requires
        wf(v),
        make_check(v, mk) is None,
        tk.escrow == mk.escrow,
        tk.vault == mk.vault,
        tk.maker == mk.maker,
        take_distinct(tk),
        take_fits(make_apply(v, mk), tk),
        take_check(make_apply(v, mk), tk) is None,
    ensures
        ({
            let v1 = make_apply(v, mk);
            let v2 = take_apply(v1, tk);
            &&& v2.escrows == v.escrows
            &&& !has_escrow_addr(v2.escrows, mk.escrow)
            &&& !has_escrow_key(v2.escrows, mk.maker, mk.seed)
            &&& !has_acct(v2.accounts, mk.vault)
            &&& acct_of(v2.accounts, tk.maker_ata_y).balance == acct_of(
                v1.accounts,
                tk.maker_ata_y,
            ).balance + mk.amount_y
            &&& acct_of(v2.accounts, tk.taker_ata_x).balance == acct_of(
                v1.accounts,
                tk.taker_ata_x,
            ).balance + mk.amount_x
            &&& acct_of(v2.accounts, tk.taker_ata_y).balance == acct_of(
                v1.accounts,
                tk.taker_ata_y,
            ).balance - mk.amount_y
            &&& forall|a: u64|
                a != tk.taker_ata_y && a != tk.maker_ata_y && a != tk.taker_ata_x && a != mk.vault
                    && has_acct(v1.accounts, a) ==> has_acct(v2.accounts, a) && acct_of(
                    v2.accounts,
                    a,
                ) == acct_of(v1.accounts, a)
            // Relative to the ledger before the open: the maker's and the
            // taker's receiving balances grow by exactly the recorded
            // amounts, unless one of them doubles as the deposit's source.
            &&& tk.maker_ata_y != mk.maker_ata_x ==> acct_of(v2.accounts, tk.maker_ata_y).balance
                == acct_of(v.accounts, tk.maker_ata_y).balance + mk.amount_y
            &&& tk.taker_ata_x != mk.maker_ata_x ==> acct_of(v2.accounts, tk.taker_ata_x).balance
                == acct_of(v.accounts, tk.taker_ata_x).balance + mk.amount_x
        }),
{
    lemma_make_wf(v, mk);
    let v1 = make_apply(v, mk);
    let v2 = take_apply(v1, tk);
    let n = v.accounts.len() as int;
    let m = v.escrows.len() as int;
    lemma_escrow_at_is(v1.escrows, mk.escrow, m);
    let e = v1.escrows[m];
    assert(e.record.amount_x == mk.amount_x && e.record.amount_y == mk.amount_y);
    crate::take::lemma_take_indexes(v1, tk);
    lemma_take_wf(v1, tk);
    let ty = acct_at(v1.accounts, tk.taker_ata_y);
    let my = acct_at(v1.accounts, tk.maker_ata_y);
    let tx = acct_at(v1.accounts, tk.taker_ata_x);
    let vi = acct_at(v1.accounts, e.record.vault);
    lemma_acct_at_is(v1.accounts, mk.vault, n);
    assert(vi == n);

    // The settled record is the one the open pushed, so the record store
    // returns to exactly its prior contents.
    v1.escrows.remove_ensures(m);
    assert(v2.escrows =~= v.escrows);

    // Pointwise description of the settled account store.
    take_apply_accounts_pointwise(v1, tk);

    // The vault is gone: every surviving address differs from it.
    assert forall|k: int| 0 <= k < v2.accounts.len()
        implies (#[trigger] v2.accounts[k]).addr != mk.vault by {
        let p = if k < vi { k } else { k + 1 };
        assert(v2.accounts[k].addr == v1.accounts[p].addr);
        assert(v1.accounts[p].addr != v1.accounts[n].addr);
    }

    // Locate the three settled accounts in the result.
    let tyn = if ty < vi { ty } else { ty - 1 };
    let myn = if my < vi { my } else { my - 1 };
    let txn = if tx < vi { tx } else { tx - 1 };
    lemma_acct_at_is(v2.accounts, tk.taker_ata_y, tyn);
    lemma_acct_at_is(v2.accounts, tk.maker_ata_y, myn);
    lemma_acct_at_is(v2.accounts, tk.taker_ata_x, txn);

    assert forall|a: u64|
        a != tk.taker_ata_y && a != tk.maker_ata_y && a != tk.taker_ata_x && a != mk.vault
            && has_acct(v1.accounts, a) implies has_acct(v2.accounts, a) && acct_of(
        v2.accounts,
        a,
    ) == acct_of(v1.accounts, a) by {
        let k = acct_at(v1.accounts, a);
        assert(0 <= k < v1.accounts.len() && v1.accounts[k].addr == a);
        assert(k != ty && k != my && k != tx && k != vi);
        let knew = if k < vi { k } else { k - 1 };
        lemma_acct_at_is(v2.accounts, a, knew);
        assert(v2.accounts[knew] == v1.accounts[k]);
    }

    // The open touched only the deposit's source account and the fresh
    // vault, so the two receiving accounts held before the open exactly
    // what they held after it.
    let i = acct_at(v.accounts, mk.maker_ata_x);
    if tk.maker_ata_y != mk.maker_ata_x {
        assert(my < n);
        assert(v1.accounts[my].addr != v1.accounts[i].addr);
        assert(v1.accounts[my] == v.accounts[my]);
        lemma_acct_at_is(v.accounts, tk.maker_ata_y, my);
    }
    if tk.taker_ata_x != mk.maker_ata_x {
        assert(tx < n);
        assert(v1.accounts[tx].addr != v1.accounts[i].addr);
        assert(v1.accounts[tx] == v.accounts[tx]);
        lemma_acct_at_is(v.accounts, tk.taker_ata_x, tx);
    }
}

/// Pointwise restatement of `take_apply`: each surviving slot holds either
/// one of the three rewritten accounts or the untouched original.
proof fn take_apply_accounts_pointwise(v: LedgerView, cx: Take)
    requires
        wf(v),
        take_distinct(cx),
        take_fits(v, cx),
        take_check(v, cx) is None,
    ensures
        ({
            let e = v.escrows[escrow_at(v.escrows, cx.escrow)];
            let ty = acct_at(v.accounts, cx.taker_ata_y);
            let my = acct_at(v.accounts, cx.maker_ata_y);
            let tx = acct_at(v.accounts, cx.taker_ata_x);
            let vi = acct_at(v.accounts, e.record.vault);
            let w = take_apply(v, cx);
            &&& w.accounts.len() == v.accounts.len() - 1
            &&& forall|k: int| 0 <= k < w.accounts.len() ==> {
                let p = if k < vi { k } else { k + 1 };
                &&& (#[trigger] w.accounts[k]).addr == v.accounts[p].addr
                &&& w.accounts[k].mint == v.accounts[p].mint
                &&& w.accounts[k].authority == v.accounts[p].authority
                &&& (p == ty ==> w.accounts[k].balance == v.accounts[p].balance
                    - e.record.amount_y)
                &&& (p == my ==> w.accounts[k].balance == v.accounts[p].balance
                    + e.record.amount_y)
                &&& (p == tx ==> w.accounts[k].balance == v.accounts[p].balance
                    + e.record.amount_x)
                &&& (p != ty && p != my && p != tx ==> w.accounts[k] == v.accounts[p])
            }
        }),
{
    crate::take::lemma_take_indexes(v, cx);
    let e = v.escrows[escrow_at(v.escrows, cx.escrow)];
    let ty = acct_at(v.accounts, cx.taker_ata_y);
    let my = acct_at(v.accounts, cx.maker_ata_y);
    let tx = acct_at(v.accounts, cx.taker_ata_x);
    let vi = acct_at(v.accounts, e.record.vault);
    let w = take_apply(v, cx);
    let pay = v.accounts[ty];
    let recv = v.accounts[my];
    let dst = v.accounts[tx];
    let paid = TokenAccount {
        addr: pay.addr,
        mint: pay.mint,
        authority: pay.authority,
        balance: (pay.balance - e.record.amount_y) as u64,
    };
    let received = TokenAccount {
        addr: recv.addr,
        mint: recv.mint,
        authority: recv.authority,
        balance: (recv.balance + e.record.amount_y) as u64,
    };
    let claimed = TokenAccount {
        addr: dst.addr,
        mint: dst.mint,
        authority: dst.authority,
        balance: (dst.balance + e.record.amount_x) as u64,
    };
    let u3b = v.accounts.update(ty, paid).update(my, received).update(tx, claimed);
    u3b.remove_ensures(vi);
    assert(w.accounts == u3b.remove(vi));
    assert forall|k: int| 0 <= k < w.accounts.len() implies {
        let p = if k < vi { k } else { k + 1 };
        &&& (#[trigger] w.accounts[k]).addr == v.accounts[p].addr
        &&& w.accounts[k].mint == v.accounts[p].mint
        &&& w.accounts[k].authority == v.accounts[p].authority
        &&& (p == ty ==> w.accounts[k].balance == v.accounts[p].balance - e.record.amount_y)
        &&& (p == my ==> w.accounts[k].balance == v.accounts[p].balance + e.record.amount_y)
        &&& (p == tx ==> w.accounts[k].balance == v.accounts[p].balance + e.record.amount_x)
        &&& (p != ty && p != my && p != tx ==> w.accounts[k] == v.accounts[p])
    } by {
        let p = if k < vi { k } else { k + 1 };
        assert(w.accounts[k] == u3b[p]);
        assert(0 <= p < v.accounts.len());
    }
}

/// Uniqueness of the (maker, seed) key: after a successful open, a second
/// open by the same maker under the same seed is rejected with a state
/// conflict, whatever its other inputs are.
pub proof fn lemma_make_same_seed_conflicts(v: LedgerView, mk: Make, mk2: Make)
    requires
        make_check(v, mk) is None,
        mk2.maker == mk.maker,
        mk2.seed == mk.seed,
    ensures
        make_check(make_apply(v, mk), mk2) == Some(EscrowError::StateConflict),
{
    let v1 = make_apply(v, mk);
    let m = v.escrows.len() as int;
    assert(v1.escrows[m].record.maker == mk2.maker && v1.escrows[m].record.seed == mk2.seed);
    assert(has_escrow_key(v1.escrows, mk2.maker, mk2.seed));
}

/// Independence of seeds: after a successful open, the same maker can open
/// a second escrow under a different seed, provided its addresses are fresh
/// and its source account still covers the second deposit.
pub proof fn lemma_make_distinct_seeds_independent(v: LedgerView, mk: Make, mk2: Make)
    requires
        wf(v),
        make_check(v, mk) is None,
        mk2.maker == mk.maker,
        mk2.seed != mk.seed,
        !has_escrow_key(v.escrows, mk2.maker, mk2.seed),
        // The second record and vault addresses are fresh, also towards the
        // first open's new record and vault.
        !has_escrow_addr(v.escrows, mk2.escrow),
        !has_acct(v.accounts, mk2.escrow),
        mk2.escrow != mk2.maker,
        !maker_in_use(v.escrows, mk2.escrow),
        mk2.escrow != mk.escrow,
        mk2.escrow != mk.vault,
        !has_acct(v.accounts, mk2.vault),
        mk2.vault != mk2.escrow,
        !has_escrow_addr(v.escrows, mk2.vault),
        mk2.vault != mk.vault,
        mk2.vault != mk.escrow,
        !authority_in_use(v.accounts, mk2.escrow),
        // The second source account is funded for the second deposit even
        // after the first one left.
        has_acct(v.accounts, mk2.maker_ata_x),
        acct_of(v.accounts, mk2.maker_ata_x).authority == mk2.maker,
        acct_of(v.accounts, mk2.maker_ata_x).mint == mk2.mint_x,
        mk2.maker_ata_x == mk.maker_ata_x ==> acct_of(v.accounts, mk2.maker_ata_x).balance
            >= mk.amount_x + mk2.amount_x,
        mk2.maker_ata_x != mk.maker_ata_x ==> acct_of(v.accounts, mk2.maker_ata_x).balance
            >= mk2.amount_x,
    ensures
        make_check(make_apply(v, mk), mk2) is None,
{
    let v1 = make_apply(v, mk);
    let n = v.accounts.len() as int;
    let m = v.escrows.len() as int;
    let i = acct_at(v.accounts, mk.maker_ata_x);
    assert(0 <= i < n && v.accounts[i].addr == mk.maker_ata_x);
    lemma_make_wf(v, mk);

    assert(!has_escrow_key(v1.escrows, mk2.maker, mk2.seed)) by {
        assert forall|k: int| 0 <= k < v1.escrows.len()
            implies !((#[trigger] v1.escrows[k]).record.maker == mk2.maker
                && v1.escrows[k].record.seed == mk2.seed) by {
            if k < m {
                assert(v1.escrows[k] == v.escrows[k]);
            }
        }
    }
    assert(!has_escrow_addr(v1.escrows, mk2.escrow)) by {
        assert forall|k: int| 0 <= k < v1.escrows.len()
            implies (#[trigger] v1.escrows[k]).addr != mk2.escrow by {
            if k < m {
                assert(v1.escrows[k] == v.escrows[k]);
            }
        }
    }
    assert(!has_acct(v1.accounts, mk2.escrow)) by {
        assert forall|k: int| 0 <= k < v1.accounts.len()
            implies (#[trigger] v1.accounts[k]).addr != mk2.escrow by {
            if k < n {
                assert(v1.accounts[k].addr == v.accounts[k].addr);
            }
        }
    }
    assert(!maker_in_use(v1.escrows, mk2.escrow)) by {
        assert forall|k: int| 0 <= k < v1.escrows.len()
            implies (#[trigger] v1.escrows[k]).record.maker != mk2.escrow by {
            if k < m {
                assert(v1.escrows[k] == v.escrows[k]);
            }
        }
    }
    assert(!has_acct(v1.accounts, mk2.vault)) by {
        assert forall|k: int| 0 <= k < v1.accounts.len()
            implies (#[trigger] v1.accounts[k]).addr != mk2.vault by {
            if k < n {
                assert(v1.accounts[k].addr == v.accounts[k].addr);
            }
        }
    }
    assert(!has_escrow_addr(v1.escrows, mk2.vault)) by {
        assert forall|k: int| 0 <= k < v1.escrows.len()
            implies (#[trigger] v1.escrows[k]).addr != mk2.vault by {
            if k < m {
                assert(v1.escrows[k] == v.escrows[k]);
            }
        }
    }
    assert(!authority_in_use(v1.accounts, mk2.escrow)) by {
        assert forall|k: int| 0 <= k < v1.accounts.len()
            implies (#[trigger] v1.accounts[k]).authority != mk2.escrow by {
            if k < n {
                assert(v1.accounts[k].authority == v.accounts[k].authority);
            }
        }
    }
    assert(!has_escrow_addr(v1.escrows, mk2.maker)) by {
        assert forall|k: int| 0 <= k < v1.escrows.len()
            implies (#[trigger] v1.escrows[k]).addr != mk2.maker by {
            if k < m {
                assert(v1.escrows[k] == v.escrows[k]);
            }
        }
    }

    // The second source account, possibly debited by the first open, still
    // meets every requirement.
    if mk2.maker_ata_x == mk.maker_ata_x {
        lemma_acct_at_is(v1.accounts, mk2.maker_ata_x, i);
    } else {
        let k = acct_at(v.accounts, mk2.maker_ata_x);
        assert(0 <= k < n && v.accounts[k].addr == mk2.maker_ata_x);
        assert(k != i);
        lemma_acct_at_is(v1.accounts, mk2.maker_ata_x, k);
        assert(v1.accounts[k] == v.accounts[k]);
    }
}

/// A settle against an address where no record lives fails, deterministically
/// and with no effect: the operation's contract returns the whole ledger
/// unchanged on every error.
pub proof fn lemma_take_nonexistent_record(v: LedgerView, cx: Take)
    requires
        !has_escrow_addr(v.escrows, cx.escrow),
    ensures
        take_check(v, cx) == Some(EscrowError::StateConflict),
{
}

/// A cancel against an address where no record lives fails in the same
/// deterministic way.
pub proof fn lemma_refund_nonexistent_record(v: LedgerView, cx: Refund)
    requires
        !has_escrow_addr(v.escrows, cx.escrow),
    ensures
        refund_check(v, cx) == Some(EscrowError::StateConflict),
{
}

/// The protocol does not restrict who the taker is.  A settle is owed
/// success for every identity `cx.taker` — the conditions below constrain
/// only the named record and the named accounts' types, authorities and
/// balances, never the taker's identity itself (beyond its not being a
/// keyless derived record address, which could not authorize anything).
pub proof fn lemma_take_open_to_any_taker(v: LedgerView, cx: Take)
    requires
        has_escrow_addr(v.escrows, cx.escrow),
        cx.maker == escrow_of(v.escrows, cx.escrow).record.maker,
        cx.vault == escrow_of(v.escrows, cx.escrow).record.vault,
        !has_escrow_addr(v.escrows, cx.taker),
        has_acct(v.accounts, cx.taker_ata_y),
        acct_of(v.accounts, cx.taker_ata_y).authority == cx.taker,
        acct_of(v.accounts, cx.taker_ata_y).mint == escrow_of(
            v.escrows,
            cx.escrow,
        ).record.mint_y,
        acct_of(v.accounts, cx.taker_ata_y).balance >= escrow_of(
            v.escrows,
            cx.escrow,
        ).record.amount_y,
        has_acct(v.accounts, cx.maker_ata_y),
        acct_of(v.accounts, cx.maker_ata_y).authority == cx.maker,
        acct_of(v.accounts, cx.maker_ata_y).mint == escrow_of(
            v.escrows,
            cx.escrow,
        ).record.mint_y,
        has_acct(v.accounts, cx.taker_ata_x),
        acct_of(v.accounts, cx.taker_ata_x).authority == cx.taker,
        acct_of(v.accounts, cx.taker_ata_x).mint == escrow_of(
            v.escrows,
            cx.escrow,
        ).record.mint_x,
    ensures
        take_check(v, cx) is None,
{
}

} // verus!
