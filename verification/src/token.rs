//! A fungible token: minting, transfers, and allowances spent by approved spenders.
use vstd::prelude::*;

use crate::address::Addr;
use crate::arith::ArithFault;
use crate::keymap::{KeyEq, KeyMap};

verus! {

/// The key of an allowance: what `spender` may move out of `owner`'s balance.
pub struct AllowanceKey {
    pub owner: Addr,
    pub spender: Addr,
}

impl View for AllowanceKey {
    type V = (Seq<char>, Seq<char>);

    open spec fn view(&self) -> (Seq<char>, Seq<char>) {
        (self.owner@, self.spender@)
    }
}

impl KeyEq for AllowanceKey {
    fn key_eq(&self, other: &Self) -> (r: bool) {
        self.owner.same(&other.owner) && self.spender.same(&other.spender)
    }
}

/// The refusals of the token.
#[derive(PartialEq, Eq, Structural, Debug, Clone, Copy)]
pub enum TokenError {
    InsufficientBalance,
    InsufficientAllowance,
}

impl TokenError {
    /// The text of the refusal's message.
    pub open spec fn message_text(self) -> Seq<char> {
        match self {
            TokenError::InsufficientBalance => "insufficient balance"@,
            TokenError::InsufficientAllowance => "insufficient allowance"@,
        }
    }

    /// The message with which the contract refuses.
    pub fn message(&self) -> (r: &'static str)
        ensures
            r@ == self.message_text(),
    {
        match self {
            TokenError::InsufficientBalance => "insufficient balance",
            TokenError::InsufficientAllowance => "insufficient allowance",
        }
    }
}

/// The token's ledger as plain values.
pub struct TokenView {
    pub balances: Map<Seq<char>, i128>,
    pub allowances: Map<(Seq<char>, Seq<char>), i128>,
}

impl TokenView {
    /// The balance of `a` (zero when none was ever recorded).
    pub open spec fn balance_of(self, a: Seq<char>) -> i128 {
        if self.balances.contains_key(a) {
            self.balances[a]
        } else {
            0
        }
    }

    /// What `spender` may move out of `owner`'s balance (zero when never approved).
    pub open spec fn allowance_of(self, owner: Seq<char>, spender: Seq<char>) -> i128 {
        if self.allowances.contains_key((owner, spender)) {
            self.allowances[(owner, spender)]
        } else {
            0
        }
    }
}

/// The value `x` fits in an `i128`.
pub open spec fn fits(x: int) -> bool {
    i128::MIN <= x <= i128::MAX
}

/// What `mint` does.
pub open spec fn mint_spec(v: TokenView, to: Seq<char>, amount: i128) -> TokenView {
    TokenView { balances: v.balances.insert(to, (v.balance_of(to) + amount) as i128), ..v }
}

/// The ledger after debiting `amount` from `from`.
pub open spec fn debited(v: TokenView, from: Seq<char>, amount: i128) -> TokenView {
    TokenView { balances: v.balances.insert(from, (v.balance_of(from) - amount) as i128), ..v }
}

/// Moving `amount` from `from` to `to`: `from` is debited, then `to` is credited, so a
/// move from an account to itself leaves its balance as it was.
pub open spec fn move_balance(v: TokenView, from: Seq<char>, to: Seq<char>, amount: i128) -> TokenView {
    let d = debited(v, from, amount);
    TokenView { balances: d.balances.insert(to, (d.balance_of(to) + amount) as i128), ..v }
}

/// The first arithmetic fault, if any, of moving `amount` from `from` to `to`: the debit,
/// then the credit.
pub open spec fn move_fault(v: TokenView, from: Seq<char>, to: Seq<char>, amount: i128) -> Option<ArithFault> {
    if !fits(v.balance_of(from) - amount) {
        Some(ArithFault::SubOverflow)
    } else if !fits(debited(v, from, amount).balance_of(to) + amount) {
        Some(ArithFault::AddOverflow)
    } else {
        None
    }
}

/// The balance arithmetic of moving `amount` from `from` to `to` does not overflow.
pub open spec fn move_defined(v: TokenView, from: Seq<char>, to: Seq<char>, amount: i128) -> bool {
    move_fault(v, from, to, amount) is None
}

/// The first arithmetic fault, if any, that `transfer` meets: only once the balance check
/// has passed.
pub open spec fn transfer_fault(v: TokenView, from: Seq<char>, to: Seq<char>, amount: i128) -> Option<ArithFault> {
    if v.balance_of(from) < amount {
        None
    } else {
        move_fault(v, from, to, amount)
    }
}

/// The first arithmetic fault, if any, that `transfer_from` meets: only once the allowance
/// and balance checks have passed; the allowance is lowered after the move.
pub open spec fn transfer_from_fault(
    v: TokenView,
    spender: Seq<char>,
    from: Seq<char>,
    to: Seq<char>,
    amount: i128,
) -> Option<ArithFault> {
    if v.allowance_of(from, spender) < amount || v.balance_of(from) < amount {
        None
    } else if move_fault(v, from, to, amount) is Some {
        move_fault(v, from, to, amount)
    } else if !fits(v.allowance_of(from, spender) - amount) {
        Some(ArithFault::SubOverflow)
    } else {
        None
    }
}

/// What `transfer` does.
pub open spec fn transfer_spec(v: TokenView, from: Seq<char>, to: Seq<char>, amount: i128) -> Result<
    TokenView,
    TokenError,
> {
    if v.balance_of(from) < amount {
        Err(TokenError::InsufficientBalance)
    } else {
        Ok(move_balance(v, from, to, amount))
    }
}

/// What `approve` does.
pub open spec fn approve_spec(v: TokenView, owner: Seq<char>, spender: Seq<char>, amount: i128) -> TokenView {
    TokenView { allowances: v.allowances.insert((owner, spender), amount), ..v }
}

/// What `transfer_from` does: the allowance is checked before the balance.
pub open spec fn transfer_from_spec(
    v: TokenView,
    spender: Seq<char>,
    from: Seq<char>,
    to: Seq<char>,
    amount: i128,
) -> Result<TokenView, TokenError> {
    if v.allowance_of(from, spender) < amount {
        Err(TokenError::InsufficientAllowance)
    } else if v.balance_of(from) < amount {
        Err(TokenError::InsufficientBalance)
    } else {
        let moved = move_balance(v, from, to, amount);
        Ok(
            TokenView {
                allowances: moved.allowances.insert(
                    (from, spender),
                    (v.allowance_of(from, spender) - amount) as i128,
                ),
                ..moved
            },
        )
    }
}

/// The token's ledger.
pub struct TokenContract {
    balances: KeyMap<Addr, i128>,
    allowances: KeyMap<AllowanceKey, i128>,
}

impl View for TokenContract {
    type V = TokenView;

    closed spec fn view(&self) -> TokenView {
        TokenView { balances: self.balances@, allowances: self.allowances@ }
    }
}

impl TokenContract {
    /// The ledger's invariant: each account and each allowance is held once.
    pub closed spec fn wf(&self) -> bool {
        self.balances.wf() && self.allowances.wf()
    }

    /// An empty ledger.
    pub fn new() -> (r: TokenContract)
        ensures
            r.wf(),
            r@.balances == Map::<Seq<char>, i128>::empty(),
            r@.allowances == Map::<(Seq<char>, Seq<char>), i128>::empty(),
    {
        TokenContract { balances: KeyMap::new(), allowances: KeyMap::new() }
    }

    /// Loads the stored balance of `account`.
    pub fn load_balance(&mut self, account: &Addr, amount: i128)
        requires
            old(self).wf(),
        ensures
            final(self).wf(),
            final(self)@ == (TokenView { balances: old(self)@.balances.insert(account@, amount), ..old(self)@ }),
    {
        self.balances.insert(account.clone(), amount);
    }

    /// Loads the stored allowance of `spender` over `owner`'s balance.
    pub fn load_allowance(&mut self, owner: &Addr, spender: &Addr, amount: i128)
        requires
            old(self).wf(),
        ensures
            final(self).wf(),
            final(self)@ == approve_spec(old(self)@, owner@, spender@, amount),
    {
        self.approve(owner, spender, amount);
    }

    /// Adds `amount` to the balance of `to`.
    pub fn mint(&mut self, to: &Addr, amount: i128)
        requires
            old(self).wf(),
            fits(old(self)@.balance_of(to@) + amount),
        ensures
            final(self).wf(),
            final(self)@ == mint_spec(old(self)@, to@, amount),
    {
        let balance = self.balance(to);
        self.balances.insert(to.clone(), balance + amount);
    }

    /// Moves `amount` from `from` to `to`; refused when `from`'s balance is below `amount`.
    pub fn transfer(&mut self, from: &Addr, to: &Addr, amount: i128) -> (r: Result<(), TokenError>)
        requires
            old(self).wf(),
            transfer_fault(old(self)@, from@, to@, amount) is None,
        ensures
            final(self).wf(),
            match transfer_spec(old(self)@, from@, to@, amount) {
                Ok(v) => r is Ok && final(self)@ == v,
                Err(e) => r == Err::<(), TokenError>(e) && final(self)@ == old(self)@,
            },
    {
        let from_balance = self.balance(from);
        if from_balance < amount {
            return Err(TokenError::InsufficientBalance);
        }
        self.move_balance(from, to, amount, from_balance);
        Ok(())
    }

    /// Debits `amount` from `from` (whose balance is `from_balance`), then credits it to `to`.
    fn move_balance(&mut self, from: &Addr, to: &Addr, amount: i128, from_balance: i128)
        requires
            old(self).wf(),
            from_balance == old(self)@.balance_of(from@),
            move_defined(old(self)@, from@, to@, amount),
        ensures
            final(self).wf(),
            final(self)@ == move_balance(old(self)@, from@, to@, amount),
    {
        self.balances.insert(from.clone(), from_balance - amount);
        let to_balance = self.balance(to);
        self.balances.insert(to.clone(), to_balance + amount);
    }

    /// The first arithmetic fault, if any, that `transfer` with these inputs would meet.
    pub fn transfer_faults(&self, from: &Addr, to: &Addr, amount: i128) -> (r: Option<ArithFault>)
        requires
            self.wf(),
        ensures
            r == transfer_fault(self@, from@, to@, amount),
    {
        let from_balance = self.balance(from);
        if from_balance < amount {
            return None;
        }
        self.move_faults(from, to, amount, from_balance)
    }

    /// The first arithmetic fault, if any, of moving `amount` from `from` (whose balance is
    /// `from_balance`) to `to`.
    fn move_faults(&self, from: &Addr, to: &Addr, amount: i128, from_balance: i128) -> (r: Option<ArithFault>)
        requires
            self.wf(),
            from_balance == self@.balance_of(from@),
        ensures
            r == move_fault(self@, from@, to@, amount),
    {
        let rest = match from_balance.checked_sub(amount) {
            None => {
                return Some(ArithFault::SubOverflow);
            },
            Some(x) => x,
        };
        let to_balance = if from.same(to) {
            rest
        } else {
            self.balance(to)
        };
        if to_balance.checked_add(amount).is_none() {
            Some(ArithFault::AddOverflow)
        } else {
            None
        }
    }

    /// The first arithmetic fault, if any, that `transfer_from` with these inputs would meet.
    pub fn transfer_from_faults(&self, spender: &Addr, from: &Addr, to: &Addr, amount: i128) -> (r: Option<
        ArithFault,
    >)
        requires
            self.wf(),
        ensures
            r == transfer_from_fault(self@, spender@, from@, to@, amount),
    {
        let allowance = self.allowance(from, spender);
        let from_balance = self.balance(from);
        if allowance < amount || from_balance < amount {
            return None;
        }
        let moved = self.move_faults(from, to, amount, from_balance);
        if moved.is_some() {
            return moved;
        }
        if allowance.checked_sub(amount).is_none() {
            Some(ArithFault::SubOverflow)
        } else {
            None
        }
    }

    /// The balance of `account` (zero when it never held any).
    pub fn balance(&self, account: &Addr) -> (r: i128)
        requires
            self.wf(),
        ensures
            r == self@.balance_of(account@),
    {
        match self.balances.get(account) {
            Some(b) => *b,
            None => 0,
        }
    }

    /// Lets `spender` move up to `amount` out of `owner`'s balance, replacing any earlier
    /// allowance.
    pub fn approve(&mut self, owner: &Addr, spender: &Addr, amount: i128)
        requires
            old(self).wf(),
        ensures
            final(self).wf(),
            final(self)@ == approve_spec(old(self)@, owner@, spender@, amount),
    {
        let key = AllowanceKey { owner: owner.clone(), spender: spender.clone() };
        self.allowances.insert(key, amount);
    }

    /// What `spender` may still move out of `owner`'s balance.
    pub fn allowance(&self, owner: &Addr, spender: &Addr) -> (r: i128)
        requires
            self.wf(),
        ensures
            r == self@.allowance_of(owner@, spender@),
    {
        let key = AllowanceKey { owner: owner.clone(), spender: spender.clone() };
        match self.allowances.get(&key) {
            Some(a) => *a,
            None => 0,
        }
    }

    /// Moves `amount` from `from` to `to` on `spender`'s allowance and lowers that allowance
    /// by `amount`; refused when the allowance, or else `from`'s balance, is below `amount`.
    pub fn transfer_from(&mut self, spender: &Addr, from: &Addr, to: &Addr, amount: i128) -> (r: Result<
        (),
        TokenError,
    >)
        requires
            old(self).wf(),
            transfer_from_fault(old(self)@, spender@, from@, to@, amount) is None,
        ensures
            final(self).wf(),
            match transfer_from_spec(old(self)@, spender@, from@, to@, amount) {
                Ok(v) => r is Ok && final(self)@ == v,
                Err(e) => r == Err::<(), TokenError>(e) && final(self)@ == old(self)@,
            },
    {
        let allowance = self.allowance(from, spender);
        if allowance < amount {
            return Err(TokenError::InsufficientAllowance);
        }
        let from_balance = self.balance(from);
        if from_balance < amount {
            return Err(TokenError::InsufficientBalance);
        }
        self.move_balance(from, to, amount, from_balance);
        let key = AllowanceKey { owner: from.clone(), spender: spender.clone() };
        self.allowances.insert(key, allowance - amount);
        Ok(())
    }
}

/// A transfer conserves tokens: between two different accounts the sender loses exactly
/// `amount` and the receiver gains it; a transfer to oneself leaves the balance as it was.
/// No other balance and no allowance changes.
pub proof fn lemma_transfer_conserves(v: TokenView, from: Seq<char>, to: Seq<char>, amount: i128, other: Seq<char>)
    requires
        move_defined(v, from, to, amount),
        transfer_spec(v, from, to, amount) is Ok,
    ensures
        ({
            let w = transfer_spec(v, from, to, amount)->Ok_0;
            &&& from != to ==> w.balance_of(from) == v.balance_of(from) - amount
            &&& from != to ==> w.balance_of(to) == v.balance_of(to) + amount
            &&& from == to ==> w.balance_of(from) == v.balance_of(from)
            &&& w.balance_of(from) + w.balance_of(to) == v.balance_of(from) + v.balance_of(to)
            &&& (other != from && other != to ==> w.balance_of(other) == v.balance_of(other))
            &&& w.allowances == v.allowances
        }),
{
}

/// A transfer succeeds exactly when the sender's balance covers the amount.
pub proof fn lemma_transfer_succeeds_iff_covered(v: TokenView, from: Seq<char>, to: Seq<char>, amount: i128)
    ensures
        transfer_spec(v, from, to, amount) is Ok <==> v.balance_of(from) >= amount,
{
}

/// After `approve`, `allowance` reads back the approved amount, and every other allowance
/// is unchanged.
pub proof fn lemma_approve_then_allowance(
    v: TokenView,
    owner: Seq<char>,
    spender: Seq<char>,
    amount: i128,
    o2: Seq<char>,
    s2: Seq<char>,
)
    ensures
        approve_spec(v, owner, spender, amount).allowance_of(owner, spender) == amount,
        (o2, s2) != (owner, spender) ==> approve_spec(v, owner, spender, amount).allowance_of(o2, s2)
            == v.allowance_of(o2, s2),
        approve_spec(v, owner, spender, amount).balances == v.balances,
{
}

/// `transfer_from` spends exactly `amount` of the allowance and moves the balances exactly
/// as `transfer` does.
pub proof fn lemma_transfer_from_spends_allowance(
    v: TokenView,
    spender: Seq<char>,
    from: Seq<char>,
    to: Seq<char>,
    amount: i128,
)
    requires
        move_defined(v, from, to, amount),
        fits(v.allowance_of(from, spender) - amount),
        transfer_from_spec(v, spender, from, to, amount) is Ok,
    ensures
        ({
            let w = transfer_from_spec(v, spender, from, to, amount)->Ok_0;
            &&& w.allowance_of(from, spender) == v.allowance_of(from, spender) - amount
            &&& w.balances == transfer_spec(v, from, to, amount)->Ok_0.balances
        }),
{
}

/// Minting adds exactly `amount` to the receiver and leaves every other balance alone.
pub proof fn lemma_mint_adds(v: TokenView, to: Seq<char>, amount: i128, other: Seq<char>)
    requires
        fits(v.balance_of(to) + amount),
    ensures
        mint_spec(v, to, amount).balance_of(to) == v.balance_of(to) + amount,
        other != to ==> mint_spec(v, to, amount).balance_of(other) == v.balance_of(other),
{
}

} // verus!
