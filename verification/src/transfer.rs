//! The transfer engine: the custodial balances the core asks to be moved.
//!
//! The engine keeps one holding per (asset, holder) pair and moves amounts
//! between holdings under the from-holder's authority. A holding that is
//! absent has balance zero. The engine is the sole judge of sufficiency: a
//! transfer that asks for more than the source holds is refused, and the
//! caller sees `InsufficientBalance`.

use vstd::prelude::*;

use crate::errors::GhostError;
use crate::ids::{AssetId, Holder};

verus! {

/// One custodial balance: `holder`'s balance of `mint`.
#[derive(Clone, Copy, Debug, PartialEq, Eq, Structural)]
pub struct Holding {
    /// The asset held.
    pub mint: AssetId,
    /// The authority the balance is held under.
    pub holder: Holder,
    /// The amount held.
    pub balance: u64,
}

/// Index of the first holding of `mint` under `holder`, or `s.len()` when
/// none is.
pub open spec fn match_index(s: Seq<Holding>, mint: AssetId, holder: Holder) -> int
    decreases s.len(),
{
    if s.len() == 0 {
        0
    } else if s[0].mint == mint && s[0].holder == holder {
        0
    } else {
        1 + match_index(s.drop_first(), mint, holder)
    }
}

/// Whether a holding of `mint` under `holder` is present.
pub open spec fn has_holding(s: Seq<Holding>, mint: AssetId, holder: Holder) -> bool {
    match_index(s, mint, holder) < s.len()
}

/// `holder`'s balance of `mint`: zero when no holding is present.
pub open spec fn balance_in(s: Seq<Holding>, mint: AssetId, holder: Holder) -> u64 {
    if has_holding(s, mint, holder) {
        s[match_index(s, mint, holder)].balance
    } else {
        0u64
    }
}

/// `match_index` points at a holding of the pair and nothing before it is one.
pub proof fn lemma_match_index(s: Seq<Holding>, mint: AssetId, holder: Holder)
    ensures
        0 <= match_index(s, mint, holder) <= s.len(),
        has_holding(s, mint, holder) ==> s[match_index(s, mint, holder)].mint == mint
            && s[match_index(s, mint, holder)].holder == holder,
        forall|j: int|
            0 <= j < match_index(s, mint, holder) ==> !(s[j].mint == mint && s[j].holder
                == holder),
    decreases s.len(),
{
    if s.len() > 0 && !(s[0].mint == mint && s[0].holder == holder) {
        lemma_match_index(s.drop_first(), mint, holder);
        assert forall|j: int| 0 <= j < match_index(s, mint, holder) implies !(s[j].mint == mint
            && s[j].holder == holder) by {
            if j > 0 {
                assert(s[j] == s.drop_first()[j - 1]);
            }
        }
    }
}

/// A holding of the pair with no earlier one is the one `match_index` points
/// at.
pub proof fn lemma_match_index_of_match(s: Seq<Holding>, mint: AssetId, holder: Holder, i: int)
    requires
        0 <= i < s.len(),
        s[i].mint == mint && s[i].holder == holder,
        forall|j: int| 0 <= j < i ==> !(s[j].mint == mint && s[j].holder == holder),
    ensures
        match_index(s, mint, holder) == i,
    decreases s.len(),
{
    if i > 0 {
        lemma_match_index_of_match(s.drop_first(), mint, holder, i - 1);
    }
}

/// Two sequences of holdings that agree pairwise on (asset, holder) have the
/// same lookup index for every pair.
pub proof fn lemma_match_index_same_keys(
    a: Seq<Holding>,
    b: Seq<Holding>,
    mint: AssetId,
    holder: Holder,
)
    requires
        a.len() == b.len(),
        forall|j: int| 0 <= j < a.len() ==> a[j].mint == b[j].mint && a[j].holder == b[j].holder,
    ensures
        match_index(a, mint, holder) == match_index(b, mint, holder),
    decreases a.len(),
{
    if a.len() > 0 && !(a[0].mint == mint && a[0].holder == holder) {
        assert forall|j: int| 0 <= j < a.drop_first().len() implies a.drop_first()[j].mint
            == b.drop_first()[j].mint && a.drop_first()[j].holder == b.drop_first()[j].holder by {
            assert(a.drop_first()[j] == a[j + 1]);
            assert(b.drop_first()[j] == b[j + 1]);
        }
        lemma_match_index_same_keys(a.drop_first(), b.drop_first(), mint, holder);
    }
}

/// Replacing the holding at its own lookup index with one of the same pair
/// changes exactly that pair's balance and no other pair's.
pub proof fn lemma_holding_update(s: Seq<Holding>, i: int, h: Holding)
    requires
        0 <= i < s.len(),
        i == match_index(s, s[i].mint, s[i].holder),
        h.mint == s[i].mint,
        h.holder == s[i].holder,
    ensures
        forall|m: AssetId, hl: Holder|
            match_index(s.update(i, h), m, hl) == match_index(s, m, hl),
        balance_in(s.update(i, h), h.mint, h.holder) == h.balance,
        forall|m: AssetId, hl: Holder|
            !(m == h.mint && hl == h.holder) ==> balance_in(s.update(i, h), m, hl) == balance_in(
                s,
                m,
                hl,
            ),
{
    let updated = s.update(i, h);
    assert forall|m: AssetId, hl: Holder| match_index(updated, m, hl) == match_index(
        s,
        m,
        hl,
    ) by {
        lemma_match_index_same_keys(updated, s, m, hl);
    }
    assert forall|m: AssetId, hl: Holder|
        !(m == h.mint && hl == h.holder) implies balance_in(updated, m, hl) == balance_in(
        s,
        m,
        hl,
    ) by {
        lemma_match_index(s, m, hl);
        if has_holding(s, m, hl) {
            assert(match_index(s, m, hl) != i);
        }
    }
}

/// Appending a holding of an absent pair gives that pair its balance and
/// leaves every other pair's balance as it was.
pub proof fn lemma_holding_push(s: Seq<Holding>, h: Holding)
    requires
        !has_holding(s, h.mint, h.holder),
    ensures
        balance_in(s.push(h), h.mint, h.holder) == h.balance,
        forall|m: AssetId, hl: Holder|
            !(m == h.mint && hl == h.holder) ==> balance_in(s.push(h), m, hl) == balance_in(
                s,
                m,
                hl,
            ),
{
    let pushed = s.push(h);
    lemma_match_index(s, h.mint, h.holder);
    lemma_match_index_of_match(pushed, h.mint, h.holder, s.len() as int);
    assert forall|m: AssetId, hl: Holder|
        !(m == h.mint && hl == h.holder) implies balance_in(pushed, m, hl) == balance_in(
        s,
        m,
        hl,
    ) by {
        lemma_match_index(s, m, hl);
        if has_holding(s, m, hl) {
            lemma_match_index_of_match(pushed, m, hl, match_index(s, m, hl));
            assert(pushed[match_index(s, m, hl)] == s[match_index(s, m, hl)]);
        } else {
            lemma_match_index(pushed, m, hl);
            if has_holding(pushed, m, hl) {
                assert(pushed[match_index(pushed, m, hl)] == s[match_index(pushed, m, hl)]);
            }
        }
    }
}

/// Whether a credit of `amount` of `mint` to `holder` is accepted: it is
/// refused only where the holding's balance would exceed the representable
/// range.
pub open spec fn credit_outcome(
    s: Seq<Holding>,
    mint: AssetId,
    holder: Holder,
    amount: u64,
) -> Result<(), GhostError> {
    if balance_in(s, mint, holder) + amount > u64::MAX {
        Err(GhostError::Overflow)
    } else {
        Ok(())
    }
}

/// The holdings after a credit: unchanged where the credit is refused.
pub open spec fn credit_apply(
    s: Seq<Holding>,
    mint: AssetId,
    holder: Holder,
    amount: u64,
) -> Seq<Holding> {
    if balance_in(s, mint, holder) + amount > u64::MAX {
        s
    } else if has_holding(s, mint, holder) {
        s.update(
            match_index(s, mint, holder),
            Holding { mint, holder, balance: (balance_in(s, mint, holder) + amount) as u64 },
        )
    } else {
        s.push(Holding { mint, holder, balance: amount })
    }
}

/// Whether a transfer is accepted, and with which refusal otherwise: only
/// the from-holder's own authority may move its balance, the source must
/// hold at least `amount`, and the destination balance must stay
/// representable.
pub open spec fn transfer_outcome(
    s: Seq<Holding>,
    mint: AssetId,
    from: Holder,
    to: Holder,
    amount: u64,
    authority: Holder,
) -> Result<(), GhostError> {
    if authority != from {
        Err(GhostError::Unauthorized)
    } else if balance_in(s, mint, from) < amount {
        Err(GhostError::InsufficientBalance)
    } else if from != to && balance_in(s, mint, to) + amount > u64::MAX {
        Err(GhostError::Overflow)
    } else {
        Ok(())
    }
}

/// The holdings after an accepted transfer: `amount` moves from the source
/// holding to the destination holding, which is created if absent.
pub open spec fn transfer_apply(
    s: Seq<Holding>,
    mint: AssetId,
    from: Holder,
    to: Holder,
    amount: u64,
) -> Seq<Holding>
    recommends
        transfer_outcome(s, mint, from, to, amount, from) is Ok,
{
    if from == to || amount == 0 {
        s
    } else {
        let debited = s.update(
            match_index(s, mint, from),
            Holding { mint, holder: from, balance: (balance_in(s, mint, from) - amount) as u64 },
        );
        if has_holding(debited, mint, to) {
            debited.update(
                match_index(debited, mint, to),
                Holding {
                    mint,
                    holder: to,
                    balance: (balance_in(debited, mint, to) + amount) as u64,
                },
            )
        } else {
            debited.push(Holding { mint, holder: to, balance: amount })
        }
    }
}

/// What an accepted transfer does to every balance: the source loses
/// `amount`, the destination gains it, and no other pair moves.
pub proof fn lemma_transfer_apply(
    s: Seq<Holding>,
    mint: AssetId,
    from: Holder,
    to: Holder,
    amount: u64,
)
    requires
        transfer_outcome(s, mint, from, to, amount, from) is Ok,
    ensures
        from != to ==> balance_in(transfer_apply(s, mint, from, to, amount), mint, from)
            == balance_in(s, mint, from) - amount,
        from != to ==> balance_in(transfer_apply(s, mint, from, to, amount), mint, to)
            == balance_in(s, mint, to) + amount,
        from == to ==> transfer_apply(s, mint, from, to, amount) == s,
        forall|m: AssetId, hl: Holder|
            !(m == mint && (hl == from || hl == to)) ==> balance_in(
                transfer_apply(s, mint, from, to, amount),
                m,
                hl,
            ) == balance_in(s, m, hl),
{
    if from != to && amount > 0 {
        let i = match_index(s, mint, from);
        lemma_match_index(s, mint, from);
        let debit_holding = Holding {
            mint,
            holder: from,
            balance: (balance_in(s, mint, from) - amount) as u64,
        };
        let debited = s.update(i, debit_holding);
        lemma_holding_update(s, i, debit_holding);
        if has_holding(debited, mint, to) {
            let j = match_index(debited, mint, to);
            lemma_match_index(debited, mint, to);
            let credit_holding = Holding {
                mint,
                holder: to,
                balance: (balance_in(debited, mint, to) + amount) as u64,
            };
            lemma_holding_update(debited, j, credit_holding);
        } else {
            lemma_holding_push(debited, Holding { mint, holder: to, balance: amount });
        }
    }
}

/// The custodial ledger the transfer engine maintains.
pub struct TransferEngine {
    holdings: Vec<Holding>,
}

impl View for TransferEngine {
    type V = Seq<Holding>;

    closed spec fn view(&self) -> Seq<Holding> {
        self.holdings@
    }
}

impl TransferEngine {
    /// An engine with no holdings: every balance is zero.
    pub fn new() -> (e: TransferEngine)
        ensures
            e@ == Seq::<Holding>::empty(),
    {
        TransferEngine { holdings: Vec::new() }
    }

    /// Index of the first holding of the pair, or the number of holdings
    /// when none is present.
    fn find(&self, mint: AssetId, holder: Holder) -> (i: usize)
        ensures
            i == match_index(self@, mint, holder),
    {
        let n = self.holdings.len();
        let mut i: usize = 0;
        while i < n
            invariant
                0 <= i <= n,
                n == self@.len(),
                forall|j: int|
                    0 <= j < i ==> !(self@[j].mint == mint && self@[j].holder == holder),
            decreases n - i,
        {
            if self.holdings[i].mint == mint && self.holdings[i].holder == holder {
                proof {
                    lemma_match_index_of_match(self@, mint, holder, i as int);
                }
                return i;
            }
            i = i + 1;
        }
        proof {
            lemma_match_index(self@, mint, holder);
        }
        i
    }

    /// `holder`'s balance of `mint`; zero when no holding is present.
    pub fn balance_of(&self, mint: AssetId, holder: Holder) -> (b: u64)
        ensures
            b == balance_in(self@, mint, holder),
    {
        let i = self.find(mint, holder);
        if i < self.holdings.len() {
            self.holdings[i].balance
        } else {
            0
        }
    }

    /// Fund a holding from outside the custodial ledger. Refused only where
    /// the holding's balance would exceed the representable range; no other
    /// pair's balance moves.
    pub fn credit(&mut self, mint: AssetId, holder: Holder, amount: u64) -> (r: Result<
        (),
        GhostError,
    >)
        ensures
            final(self)@ == credit_apply(old(self)@, mint, holder, amount),
            r == credit_outcome(old(self)@, mint, holder, amount),
            r is Ok <==> balance_in(old(self)@, mint, holder) + amount <= u64::MAX,
            r is Ok ==> balance_in(final(self)@, mint, holder) == balance_in(
                old(self)@,
                mint,
                holder,
            ) + amount,
            r is Err ==> final(self)@ == old(self)@,
            forall|m: AssetId, h: Holder|
                !(m == mint && h == holder) ==> balance_in(final(self)@, m, h) == balance_in(
                    old(self)@,
                    m,
                    h,
                ),
    {
        let i = self.find(mint, holder);
        proof {
            lemma_match_index(self@, mint, holder);
        }
        if i < self.holdings.len() {
            let bal = self.holdings[i].balance;
            if amount > u64::MAX - bal {
                return Err(GhostError::Overflow);
            }
            let h = Holding { mint, holder, balance: bal + amount };
            proof {
                lemma_holding_update(self@, i as int, h);
            }
            self.holdings[i] = h;
            Ok(())
        } else {
            let h = Holding { mint, holder, balance: amount };
            proof {
                lemma_holding_push(self@, h);
            }
            self.holdings.push(h);
            Ok(())
        }
    }

    /// Move `amount` of `mint` from one holding to another, under the
    /// authority of the from-holder. On acceptance the source loses exactly
    /// `amount` and the destination gains exactly `amount`; on any refusal
    /// nothing moves.
    pub fn transfer(
        &mut self,
        mint: AssetId,
        from: Holder,
        to: Holder,
        amount: u64,
        authority: Holder,
    ) -> (r: Result<(), GhostError>)
        ensures
            r == transfer_outcome(old(self)@, mint, from, to, amount, authority),
            r is Ok ==> final(self)@ == transfer_apply(old(self)@, mint, from, to, amount),
            r is Err ==> final(self)@ == old(self)@,
            r is Ok && from != to ==> balance_in(final(self)@, mint, from) == balance_in(
                old(self)@,
                mint,
                from,
            ) - amount,
            r is Ok && from != to ==> balance_in(final(self)@, mint, to) == balance_in(
                old(self)@,
                mint,
                to,
            ) + amount,
            forall|m: AssetId, h: Holder|
                !(m == mint && (h == from || h == to)) ==> balance_in(final(self)@, m, h)
                    == balance_in(old(self)@, m, h),
    {
        if authority != from {
            return Err(GhostError::Unauthorized);
        }
        let i = self.find(mint, from);
        proof {
            lemma_match_index(self@, mint, from);
        }
        let from_balance = if i < self.holdings.len() {
            self.holdings[i].balance
        } else {
            0
        };
        if from_balance < amount {
            return Err(GhostError::InsufficientBalance);
        }
        if from == to || amount == 0 {
            proof {
                lemma_transfer_apply(self@, mint, from, to, amount);
            }
            return Ok(());
        }
        let j = self.find(mint, to);
        let to_balance = if j < self.holdings.len() {
            self.holdings[j].balance
        } else {
            0
        };
        if amount > u64::MAX - to_balance {
            return Err(GhostError::Overflow);
        }
        let ghost s0 = self@;
        let debit_holding = Holding { mint, holder: from, balance: from_balance - amount };
        proof {
            lemma_holding_update(self@, i as int, debit_holding);
        }
        self.holdings[i] = debit_holding;
        let ghost debited = self@;
        let k = self.find(mint, to);
        proof {
            lemma_match_index(self@, mint, to);
        }
        if k < self.holdings.len() {
            let credit_holding = Holding {
                mint,
                holder: to,
                balance: self.holdings[k].balance + amount,
            };
            proof {
                lemma_holding_update(self@, k as int, credit_holding);
                lemma_transfer_apply(s0, mint, from, to, amount);
            }
            self.holdings[k] = credit_holding;
        } else {
            let credit_holding = Holding { mint, holder: to, balance: amount };
            proof {
                lemma_holding_push(self@, credit_holding);
                lemma_transfer_apply(s0, mint, from, to, amount);
            }
            self.holdings.push(credit_holding);
        }
        Ok(())
    }
}

} // verus!
