use vstd::prelude::*;

use crate::storage::StorageMap;
use crate::{AccountId, BlockNumber, Nonce};

verus! {

/// The nonce an account reads as under map `m`: the stored value, or zero
/// where nothing is stored.
pub open spec fn nonce_of(m: Map<Seq<char>, Nonce>, a: Seq<char>) -> Nonce {
    if m.dom().contains(a) {
        m[a]
    } else {
        0
    }
}

/// The nonce map after one more attempt by account `a` is counted.
pub open spec fn spec_count_attempt(
    m: Map<Seq<char>, Nonce>,
    a: Seq<char>,
) -> Map<Seq<char>, Nonce> {
    m.insert(a, (nonce_of(m, a) + 1) as Nonce)
}

/// The system module's state as specifications see it.
pub struct SystemView {
    pub block_number: BlockNumber,
    pub nonce: Map<Seq<char>, Nonce>,
}

/// The system module: it owns the low-level state the chain needs to make
/// progress — the current block number and each account's count of
/// attempted operations.
#[derive(Debug)]
pub struct Pallet {
    /// The current block number.
    block_number: BlockNumber,
    /// A map from each account to its nonce.
    nonce: StorageMap<Nonce>,
}

impl View for Pallet {
    type V = SystemView;

    closed spec fn view(&self) -> SystemView {
        SystemView { block_number: self.block_number, nonce: self.nonce@ }
    }
}

impl Pallet {
    /// The nonce map's internal invariant.
    pub closed spec fn wf(self) -> bool {
        self.nonce.wf()
    }

    /// A fresh system state: block number zero, no nonces stored.
    pub fn new() -> (r: Self)
        ensures
            r.wf(),
            r@.block_number == 0,
            r@.nonce == Map::<Seq<char>, Nonce>::empty(),
    {
        Pallet { block_number: 0, nonce: StorageMap::new() }
    }

    /// The current block number.
    pub fn block_number(&self) -> (r: BlockNumber)
        ensures
            r == self@.block_number,
    {
        self.block_number
    }

    /// Advances the block number by exactly one. Running past the largest
    /// representable block number is a programming error, so the caller
    /// rules it out rather than handling it.
    pub fn inc_block_number(&mut self)
        requires
            old(self).wf(),
            old(self)@.block_number < u32::MAX,
        ensures
            final(self).wf(),
            final(self)@.block_number == old(self)@.block_number + 1,
            final(self)@.nonce == old(self)@.nonce,
    {
        self.block_number = self.block_number + 1;
    }

    /// Steps `who`'s nonce up by exactly one, counting one more attempted
    /// operation. A nonce at the largest representable value is a
    /// programming error, ruled out by the caller.
    pub fn inc_nonce(&mut self, who: &AccountId)
        requires
            old(self).wf(),
            nonce_of(old(self)@.nonce, who@) < u32::MAX,
        ensures
            final(self).wf(),
            final(self)@.nonce == spec_count_attempt(old(self)@.nonce, who@),
            final(self)@.block_number == old(self)@.block_number,
    {
        let current = match self.nonce.get(who) {
            Some(v) => *v,
            None => 0,
        };
        self.nonce.insert(who, current + 1);
    }

    /// The nonce of `who`; zero if none is stored.
    pub fn nonce(&self, who: &AccountId) -> (r: Nonce)
        requires
            self.wf(),
        ensures
            r == nonce_of(self@.nonce, who@),
    {
        match self.nonce.get(who) {
            Some(v) => *v,
            None => 0,
        }
    }
}

/// The block number after `n` increments from `b`, counted without bound.
pub open spec fn block_number_after(b: BlockNumber, n: nat) -> int
    decreases n,
{
    if n == 0 {
        b as int
    } else {
        block_number_after(b, (n - 1) as nat) + 1
    }
}

/// Advancing the block number `n` times from genesis yields exactly `n`.
pub proof fn lemma_block_number_counts(n: nat)
    ensures
        block_number_after(0, n) == n,
    decreases n,
{
    if n > 0 {
        lemma_block_number_counts((n - 1) as nat);
    }
}

/// The nonce map after account `a`'s nonce is stepped up `n` times.
pub open spec fn nonce_after(
    m: Map<Seq<char>, Nonce>,
    a: Seq<char>,
    n: nat,
) -> Map<Seq<char>, Nonce>
    decreases n,
{
    if n == 0 {
        m
    } else {
        spec_count_attempt(nonce_after(m, a, (n - 1) as nat), a)
    }
}

/// Counting one account's attempt leaves every other account's nonce as it
/// was: an account that never calls still reads zero.
pub proof fn lemma_count_attempt_leaves_others(
    m: Map<Seq<char>, Nonce>,
    who: Seq<char>,
    a: Seq<char>,
)
    requires
        a != who,
    ensures
        nonce_of(spec_count_attempt(m, who), a) == nonce_of(m, a),
{
}

/// Stepping one account's nonce up `n` times from a fresh state brings that
/// account's nonce to `n`; any untouched account still reads zero.
pub proof fn lemma_nonce_counts(a: Seq<char>, b: Seq<char>, n: nat)
    requires
        n <= u32::MAX,
    ensures
        nonce_of(nonce_after(Map::empty(), a, n), a) == n,
        b != a ==> nonce_of(nonce_after(Map::empty(), a, n), b) == 0,
    decreases n,
{
    if n > 0 {
        lemma_nonce_counts(a, b, (n - 1) as nat);
    }
}

} // verus!
