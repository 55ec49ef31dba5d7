use vstd::prelude::*;

use crate::storage::StorageMap;
use crate::support::{Dispatch, DispatchResult, ErrorKind};
use crate::{AccountId, Balance};

verus! {

/// The balance an account reads as under ledger `m`: the stored value, or
/// zero where nothing is stored.
pub open spec fn balance_of(m: Map<Seq<char>, Balance>, a: Seq<char>) -> Balance {
    if m.dom().contains(a) {
        m[a]
    } else {
        0
    }
}

/// What `transfer` does to a ledger: the state it leaves and the result it
/// returns. Both balances are read, and both checks pass, before either
/// write; the two writes then land one after the other, so a transfer to
/// oneself nets out to no change in balance.
pub open spec fn spec_transfer(
    m: Map<Seq<char>, Balance>,
    caller: Seq<char>,
    to: Seq<char>,
    amount: Balance,
) -> (Map<Seq<char>, Balance>, DispatchResult) {
    let c = balance_of(m, caller);
    let t = balance_of(m, to);
    if amount > c {
        (m, Err(ErrorKind::InsufficientBalance))
    } else if t + amount > u128::MAX {
        (m, Err(ErrorKind::BalanceOverflow))
    } else {
        let m1 = m.insert(caller, (c - amount) as Balance);
        let t1 = balance_of(m1, to);
        (m1.insert(to, (t1 + amount) as Balance), Ok(()))
    }
}

/// The balances module: it keeps how much each account holds. Its view is
/// the mapping from stored account identifiers to their balances; accounts
/// outside the view's domain hold zero.
#[derive(Debug)]
pub struct Pallet {
    balances: StorageMap<Balance>,
}

impl View for Pallet {
    type V = Map<Seq<char>, Balance>;

    closed spec fn view(&self) -> Map<Seq<char>, Balance> {
        self.balances@
    }
}

impl Pallet {
    /// A ledger with no stored balances.
    pub fn new() -> (r: Self)
        ensures
            r.wf(),
            r@ == Map::<Seq<char>, Balance>::empty(),
    {
        Pallet { balances: StorageMap::new() }
    }

    /// Overwrites (or creates) the stored balance of `who`.
    pub fn set_balance(&mut self, who: &AccountId, amount: Balance)
        requires
            old(self).wf(),
        ensures
            final(self).wf(),
            final(self)@ == old(self)@.insert(who@, amount),
    {
        self.balances.insert(who, amount);
    }

    /// The balance of `who`; zero if none is stored.
    pub fn balance(&self, who: &AccountId) -> (r: Balance)
        requires
            self.wf(),
        ensures
            r == balance_of(self@, who@),
    {
        match self.balances.get(who) {
            Some(v) => *v,
            None => 0,
        }
    }

    /// Moves `amount` from `caller` to `to`. Fails with
    /// `InsufficientBalance` if `caller` holds less than `amount`, and with
    /// `BalanceOverflow` if `to`'s balance could not take `amount` more;
    /// on failure no balance changes. Both checks precede both writes.
    pub fn transfer(
        &mut self,
        caller: AccountId,
        to: AccountId,
        amount: Balance,
    ) -> (r: DispatchResult)
        requires
            old(self).wf(),
        ensures
            final(self).wf(),
            final(self)@ == spec_transfer(old(self)@, caller@, to@, amount).0,
            r == spec_transfer(old(self)@, caller@, to@, amount).1,
    {
        let caller_balance = self.balance(&caller);
        let to_balance = self.balance(&to);

        let new_caller_balance = match caller_balance.checked_sub(amount) {
            Some(v) => v,
            None => {
                return Err(ErrorKind::InsufficientBalance);
            },
        };
        if to_balance.checked_add(amount).is_none() {
            return Err(ErrorKind::BalanceOverflow);
        }

        self.set_balance(&caller, new_caller_balance);
        let to_balance_now = self.balance(&to);
        self.set_balance(&to, to_balance_now + amount);

        Ok(())
    }
}

/// The calls the balances module exposes to the dispatcher. The caller of
/// each call is supplied by the dispatcher, not carried in the call.
#[derive(Debug)]
pub enum Call {
    Transfer { to: AccountId, amount: Balance },
}

impl Dispatch for Pallet {
    type Caller = AccountId;
    type Call = Call;

    closed spec fn wf(self) -> bool {
        self.balances.wf()
    }

    open spec fn dispatch_spec(
        pre: Map<Seq<char>, Balance>,
        caller: Seq<char>,
        call: Call,
    ) -> (Map<Seq<char>, Balance>, DispatchResult) {
        match call {
            Call::Transfer { to, amount } => spec_transfer(pre, caller, to@, amount),
        }
    }

    /// Routes a balances call to the function that implements it.
    fn dispatch(&mut self, caller: AccountId, call: Call) -> (r: DispatchResult) {
        match call {
            Call::Transfer { to, amount } => {
                self.transfer(caller, to, amount)?;
            },
        }
        Ok(())
    }
}

/// A successful transfer moves value and neither makes nor destroys it: the
/// sending and receiving accounts' balances sum to the same total before and
/// after.
pub proof fn lemma_transfer_preserves_sum(
    m: Map<Seq<char>, Balance>,
    caller: Seq<char>,
    to: Seq<char>,
    amount: Balance,
)
    requires
        spec_transfer(m, caller, to, amount).1 == Ok::<(), ErrorKind>(()),
    ensures
        balance_of(spec_transfer(m, caller, to, amount).0, caller)
            + balance_of(spec_transfer(m, caller, to, amount).0, to)
            == balance_of(m, caller) + balance_of(m, to),
{
}

/// A transfer of more than the caller holds fails with
/// `InsufficientBalance` and leaves the ledger as it was.
pub proof fn lemma_transfer_insufficient(
    m: Map<Seq<char>, Balance>,
    caller: Seq<char>,
    to: Seq<char>,
    amount: Balance,
)
    requires
        amount > balance_of(m, caller),
    ensures
        spec_transfer(m, caller, to, amount) == (m, Err::<(), ErrorKind>(
            ErrorKind::InsufficientBalance,
        )),
{
}

/// A transfer that would push the recipient past the largest representable
/// balance fails with `BalanceOverflow` and leaves the ledger as it was.
pub proof fn lemma_transfer_overflow(
    m: Map<Seq<char>, Balance>,
    caller: Seq<char>,
    to: Seq<char>,
    amount: Balance,
)
    requires
        amount <= balance_of(m, caller),
        balance_of(m, to) + amount > u128::MAX,
    ensures
        spec_transfer(m, caller, to, amount) == (m, Err::<(), ErrorKind>(
            ErrorKind::BalanceOverflow,
        )),
{
}

/// A ledger nobody has touched reads zero for every account.
pub proof fn lemma_untouched_balance_is_zero(p: Pallet, a: Seq<char>)
    requires
        p@ == Map::<Seq<char>, Balance>::empty(),
    ensures
        balance_of(p@, a) == 0,
{
}

/// Setting one account's balance leaves every other account's balance as it
/// was: an account no operation has named still reads zero.
pub proof fn lemma_set_balance_leaves_others(
    m: Map<Seq<char>, Balance>,
    who: Seq<char>,
    amount: Balance,
    a: Seq<char>,
)
    requires
        a != who,
    ensures
        balance_of(m.insert(who, amount), a) == balance_of(m, a),
{
}

/// A transfer leaves the balance of every account it neither draws from nor
/// pays to as it was, whichever way the transfer itself ends.
pub proof fn lemma_transfer_leaves_others(
    m: Map<Seq<char>, Balance>,
    caller: Seq<char>,
    to: Seq<char>,
    amount: Balance,
    a: Seq<char>,
)
    requires
        a != caller,
        a != to,
    ensures
        balance_of(spec_transfer(m, caller, to, amount).0, a) == balance_of(m, a),
{
}

} // verus!
