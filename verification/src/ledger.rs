use vstd::prelude::*;

use crate::state::Escrow;

verus! {

/// A token custody account on the ledger: it holds `balance` units of the
/// asset `mint`, and only `authority` may move them out or close it.
#[derive(Clone, Copy, PartialEq, Eq, Structural, Debug)]
pub struct TokenAccount {
    /// The account's own address (its ledger key).
    pub addr: u64,
    /// The asset type the account is denominated in.
    pub mint: u64,
    /// The identity that controls outgoing transfers.
    pub authority: u64,
    /// The quantity currently held.
    pub balance: u64,
}

/// One stored escrow record together with the address it lives at.
///
/// The address is derived from (domain tag, maker, seed) and doubles as the
/// signing authority of the record's vault.
#[derive(Clone, Copy, PartialEq, Eq, Structural, Debug)]
pub struct EscrowAccount {
    /// The derived address the record is stored at.
    pub addr: u64,
    /// The record itself.
    pub record: Escrow,
}

/// The mathematical model of the ledger: the token accounts and the open
/// escrow records, as sequences of entries with pairwise distinct keys.
pub struct LedgerView {
    pub accounts: Seq<TokenAccount>,
    pub escrows: Seq<EscrowAccount>,
}

/// The ledger as the three operations see it: all token accounts and all
/// open escrow records.  One value of this type stands for the whole shared
/// state that a single atomic invocation reads and rewrites.
pub struct Ledger {
    pub accounts: Vec<TokenAccount>,
    pub escrows: Vec<EscrowAccount>,
}

impl View for Ledger {
    type V = LedgerView;

    open spec fn view(&self) -> LedgerView {
        LedgerView { accounts: self.accounts@, escrows: self.escrows@ }
    }
}

/// Some token account with address `a` exists.
pub open spec fn has_acct(s: Seq<TokenAccount>, a: u64) -> bool {
    exists|i: int| 0 <= i < s.len() && s[i].addr == a
}

/// The index of the token account with address `a`.
pub open spec fn acct_at(s: Seq<TokenAccount>, a: u64) -> int {
    choose|i: int| 0 <= i < s.len() && s[i].addr == a
}

/// The token account with address `a`.
pub open spec fn acct_of(s: Seq<TokenAccount>, a: u64) -> TokenAccount
    recommends
        has_acct(s, a),
{
    s[acct_at(s, a)]
}

/// Some escrow record is stored at address `a`.
pub open spec fn has_escrow_addr(s: Seq<EscrowAccount>, a: u64) -> bool {
    exists|i: int| 0 <= i < s.len() && s[i].addr == a
}

/// The index of the escrow record stored at address `a`.
pub open spec fn escrow_at(s: Seq<EscrowAccount>, a: u64) -> int {
    choose|i: int| 0 <= i < s.len() && s[i].addr == a
}

/// The escrow entry stored at address `a`.
pub open spec fn escrow_of(s: Seq<EscrowAccount>, a: u64) -> EscrowAccount
    recommends
        has_escrow_addr(s, a),
{
    s[escrow_at(s, a)]
}

/// Some open escrow was made by `maker` under `seed`.
pub open spec fn has_escrow_key(s: Seq<EscrowAccount>, maker: u64, seed: u64) -> bool {
    exists|i: int| 0 <= i < s.len() && s[i].record.maker == maker && s[i].record.seed == seed
}

/// Some open escrow names `m` as its maker.
pub open spec fn maker_in_use(s: Seq<EscrowAccount>, m: u64) -> bool {
    exists|i: int| 0 <= i < s.len() && s[i].record.maker == m
}

/// Some token account is controlled by `auth`.
pub open spec fn authority_in_use(s: Seq<TokenAccount>, auth: u64) -> bool {
    exists|i: int| 0 <= i < s.len() && s[i].authority == auth
}

/// Token account addresses are pairwise distinct.
pub open spec fn unique_acct_addrs(s: Seq<TokenAccount>) -> bool {
    forall|i: int, j: int|
        0 <= i < j < s.len() ==> (#[trigger] s[i]).addr != (#[trigger] s[j]).addr
}

/// Escrow record addresses are pairwise distinct.
pub open spec fn unique_escrow_addrs(s: Seq<EscrowAccount>) -> bool {
    forall|i: int, j: int|
        0 <= i < j < s.len() ==> (#[trigger] s[i]).addr != (#[trigger] s[j]).addr
}

/// No two open escrows share their (maker, seed) key: the record address is
/// derived from that pair, so the ledger can hold at most one.
pub open spec fn unique_escrow_keys(s: Seq<EscrowAccount>) -> bool {
    forall|i: int, j: int|
        0 <= i < j < s.len() ==> !((#[trigger] s[i]).record.maker == (#[trigger] s[j]).record.maker
            && s[i].record.seed == s[j].record.seed)
}

/// Every open escrow's vault exists on the ledger.
pub open spec fn vaults_exist(v: LedgerView) -> bool {
    forall|j: int|
        0 <= j < v.escrows.len() ==> has_acct(v.accounts, (#[trigger] v.escrows[j]).record.vault)
}

/// A token account standing at an escrow's vault address is denominated in
/// the offered asset, is controlled by the record's own derived address, and
/// holds exactly the offered amount: the deposit is never partially drained
/// while the escrow is open.
pub open spec fn vaults_intact(v: LedgerView) -> bool {
    forall|j: int, i: int|
        0 <= j < v.escrows.len() && 0 <= i < v.accounts.len()
            && (#[trigger] v.accounts[i]).addr == (#[trigger] v.escrows[j]).record.vault
            ==> v.accounts[i].mint == v.escrows[j].record.mint_x
                && v.accounts[i].authority == v.escrows[j].addr
                && v.accounts[i].balance == v.escrows[j].record.amount_x
}

/// A record's derived address controls its own vault and nothing else: the
/// derivation is the sole capability over the custodied funds.
pub open spec fn authority_only_vault(v: LedgerView) -> bool {
    forall|j: int, i: int|
        0 <= j < v.escrows.len() && 0 <= i < v.accounts.len()
            && (#[trigger] v.accounts[i]).authority == (#[trigger] v.escrows[j]).addr
            ==> v.accounts[i].addr == v.escrows[j].record.vault
}

/// No maker identity coincides with a derived record address: derived
/// addresses have no key, so they can never act as a party.
pub open spec fn makers_not_records(s: Seq<EscrowAccount>) -> bool {
    forall|i: int, j: int|
        0 <= i < s.len() && 0 <= j < s.len()
            ==> (#[trigger] s[i]).record.maker != (#[trigger] s[j]).addr
}

/// Well-formedness of the whole ledger: the invariants that hold at every
/// observation point between the atomic operations.
pub open spec fn wf(v: LedgerView) -> bool {
    &&& unique_acct_addrs(v.accounts)
    &&& unique_escrow_addrs(v.escrows)
    &&& unique_escrow_keys(v.escrows)
    &&& vaults_exist(v)
    &&& vaults_intact(v)
    &&& authority_only_vault(v)
    &&& makers_not_records(v.escrows)
}

/// With distinct addresses, the account found at index `i` is the account
/// the address names.
pub proof fn lemma_acct_at_is(s: Seq<TokenAccount>, a: u64, i: int)
    requires
        unique_acct_addrs(s),
        0 <= i < s.len(),
        s[i].addr == a,
    ensures
        has_acct(s, a),
        acct_at(s, a) == i,
        acct_of(s, a) == s[i],
{
    assert(has_acct(s, a));
    let j = acct_at(s, a);
    if i < j {
        assert(s[i].addr != s[j].addr);
    } else if j < i {
        assert(s[j].addr != s[i].addr);
    }
}

/// With distinct addresses, the escrow found at index `i` is the escrow the
/// address names.
pub proof fn lemma_escrow_at_is(s: Seq<EscrowAccount>, a: u64, i: int)
    requires
        unique_escrow_addrs(s),
        0 <= i < s.len(),
        s[i].addr == a,
    ensures
        has_escrow_addr(s, a),
        escrow_at(s, a) == i,
        escrow_of(s, a) == s[i],
{
    assert(has_escrow_addr(s, a));
    let j = escrow_at(s, a);
    if i < j {
        assert(s[i].addr != s[j].addr);
    } else if j < i {
        assert(s[j].addr != s[i].addr);
    }
}

impl Ledger {
    /// A fresh ledger with no accounts and no open escrows.
    pub fn new() -> (r: Ledger)
        ensures
            r@.accounts == Seq::<TokenAccount>::empty(),
            r@.escrows == Seq::<EscrowAccount>::empty(),
            wf(r@),
    {
        Ledger { accounts: Vec::new(), escrows: Vec::new() }
    }

    /// The index of the token account at address `a`, if one exists.
    pub fn find_account(&self, a: u64) -> (r: Option<usize>)
        ensures
            match r {
                Some(i) => i < self.accounts.len() && self@.accounts[i as int].addr == a,
                None => !has_acct(self@.accounts, a),
            },
    {
        let n = self.accounts.len();
        let mut i: usize = 0;
        while i < n
            invariant
                n == self.accounts.len(),
                i <= n,
                forall|j: int| 0 <= j < i ==> (#[trigger] self@.accounts[j]).addr != a,
            decreases n - i,
        {
            if self.accounts[i].addr == a {
                return Some(i);
            }
            i = i + 1;
        }
        None
    }

    /// The index of the escrow record at address `a`, if one exists.
    pub fn find_escrow(&self, a: u64) -> (r: Option<usize>)
        ensures
            match r {
                Some(i) => i < self.escrows.len() && self@.escrows[i as int].addr == a,
                None => !has_escrow_addr(self@.escrows, a),
            },
    {
        let n = self.escrows.len();
        let mut i: usize = 0;
        while i < n
            invariant
                n == self.escrows.len(),
                i <= n,
                forall|j: int| 0 <= j < i ==> (#[trigger] self@.escrows[j]).addr != a,
            decreases n - i,
        {
            if self.escrows[i].addr == a {
                return Some(i);
            }
            i = i + 1;
        }
        None
    }

    /// Whether a token account exists at address `a`.
    pub fn account_exists(&self, a: u64) -> (r: bool)
        ensures
            r == has_acct(self@.accounts, a),
    {
        match self.find_account(a) {
            Some(i) => {
                proof {
                    assert(self@.accounts[i as int].addr == a);
                }
                true
            },
            None => false,
        }
    }

    /// Whether an escrow record exists at address `a`.
    pub fn escrow_addr_exists(&self, a: u64) -> (r: bool)
        ensures
            r == has_escrow_addr(self@.escrows, a),
    {
        match self.find_escrow(a) {
            Some(i) => {
                proof {
                    assert(self@.escrows[i as int].addr == a);
                }
                true
            },
            None => false,
        }
    }

    /// Whether `maker` already runs an open escrow under `seed`.
    pub fn escrow_key_exists(&self, maker: u64, seed: u64) -> (r: bool)
        ensures
            r == has_escrow_key(self@.escrows, maker, seed),
    {
        let n = self.escrows.len();
        let mut i: usize = 0;
        while i < n
            invariant
                n == self.escrows.len(),
                i <= n,
                forall|j: int| 0 <= j < i
                    ==> !((#[trigger] self@.escrows[j]).record.maker == maker
                        && self@.escrows[j].record.seed == seed),
            decreases n - i,
        {
            if self.escrows[i].record.maker == maker && self.escrows[i].record.seed == seed {
                return true;
            }
            i = i + 1;
        }
        false
    }

    /// Whether some open escrow names `m` as its maker.
    pub fn maker_exists(&self, m: u64) -> (r: bool)
        ensures
            r == maker_in_use(self@.escrows, m),
    {
        let n = self.escrows.len();
        let mut i: usize = 0;
        while i < n
            invariant
                n == self.escrows.len(),
                i <= n,
                forall|j: int| 0 <= j < i ==> (#[trigger] self@.escrows[j]).record.maker != m,
            decreases n - i,
        {
            if self.escrows[i].record.maker == m {
                return true;
            }
            i = i + 1;
        }
        false
    }

    /// Whether some token account is controlled by `auth`.
    pub fn authority_exists(&self, auth: u64) -> (r: bool)
        ensures
            r == authority_in_use(self@.accounts, auth),
    {
        let n = self.accounts.len();
        let mut i: usize = 0;
        while i < n
            invariant
                n == self.accounts.len(),
                i <= n,
                forall|j: int| 0 <= j < i ==> (#[trigger] self@.accounts[j]).authority != auth,
            decreases n - i,
        {
            if self.accounts[i].authority == auth {
                return true;
            }
            i = i + 1;
        }
        false
    }

    /// The balance of the token account at address `a`, if one exists.
    pub fn balance_of(&self, a: u64) -> (r: Option<u64>)
        requires
            unique_acct_addrs(self@.accounts),
        ensures
            match r {
                Some(b) => has_acct(self@.accounts, a) && acct_of(self@.accounts, a).balance == b,
                None => !has_acct(self@.accounts, a),
            },
    {
        match self.find_account(a) {
            Some(i) => {
                proof {
                    lemma_acct_at_is(self@.accounts, a, i as int);
                }
                Some(self.accounts[i].balance)
            },
            None => None,
        }
    }
}

} // verus!
