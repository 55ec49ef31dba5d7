//! A minimal deterministic state-transition engine: blocks of signed
//! operations update a ledger of account balances and a per-account replay
//! counter, under arithmetic-safety and block-sequencing rules. The ledger
//! and chain-progress modules own their state, a tagged call union routes
//! operations to the module that implements them, and the block executor
//! enforces ordering while isolating per-operation failures. Every public
//! operation carries a contract over the mathematical view of the state.

pub mod balances;
pub mod storage;
pub mod support;
pub mod system;

use vstd::prelude::*;

use crate::support::{Dispatch, DispatchResult, ErrorKind};
use crate::system::{nonce_of, spec_count_attempt};

verus! {

/// The value that identifies a participant.
pub type AccountId = String;

/// A non-negative holding of an account; absent entries read as zero.
pub type Balance = u128;

/// The index of a block in the chain; zero at genesis.
pub type BlockNumber = u32;

/// A per-account counter of attempted operations.
pub type Nonce = u32;

/// One operation of this runtime: who calls, and what they call.
pub type Extrinsic = support::Extrinsic<AccountId, RuntimeCall>;

/// A block header carrying this runtime's block number.
pub type Header = support::Header<BlockNumber>;

/// A block of this runtime: a header plus its operations in order.
pub type Block = support::Block<Header, Extrinsic>;

/// All the calls exposed to the world: the union of the calls each module
/// exposes, tagged by the module that implements them. A new module joins
/// the runtime by adding a variant here and an arm to the router.
#[derive(Debug)]
pub enum RuntimeCall {
    Balances(balances::Call),
}

/// The whole runtime state, one instance of each module.
#[derive(Debug)]
pub struct Runtime {
    pub system: system::Pallet,
    pub balances: balances::Pallet,
}

/// The runtime's state as specifications see it.
pub struct RuntimeView {
    pub block_number: BlockNumber,
    pub nonce: Map<Seq<char>, Nonce>,
    pub balances: Map<Seq<char>, Balance>,
}

impl View for Runtime {
    type V = RuntimeView;

    open spec fn view(&self) -> RuntimeView {
        RuntimeView {
            block_number: self.system@.block_number,
            nonce: self.system@.nonce,
            balances: self.balances@,
        }
    }
}

impl Dispatch for Runtime {
    type Caller = AccountId;
    type Call = RuntimeCall;

    open spec fn wf(self) -> bool {
        self.system.wf() && self.balances.wf()
    }

    open spec fn dispatch_spec(
        pre: RuntimeView,
        caller: Seq<char>,
        call: RuntimeCall,
    ) -> (RuntimeView, DispatchResult) {
        match call {
            RuntimeCall::Balances(inner) => {
                let stepped = <balances::Pallet as Dispatch>::dispatch_spec(
                    pre.balances,
                    caller,
                    inner,
                );
                ((RuntimeView { balances: stepped.0, ..pre }), stepped.1)
            },
        }
    }

    /// Routes a call to the module that implements it, on behalf of
    /// `caller`, and hands that module's result back unchanged.
    fn dispatch(&mut self, caller: AccountId, runtime_call: RuntimeCall) -> (r: DispatchResult) {
        match runtime_call {
            RuntimeCall::Balances(call) => {
                self.balances.dispatch(caller, call)?;
            },
        }
        Ok(())
    }
}

/// What one operation does to the runtime: the caller's nonce counts the
/// attempt, then the call is dispatched; a failed call leaves every balance
/// as it was.
pub open spec fn spec_step(rv: RuntimeView, e: Extrinsic) -> RuntimeView {
    let counted = RuntimeView { nonce: spec_count_attempt(rv.nonce, e.caller@), ..rv };
    <Runtime as Dispatch>::dispatch_spec(counted, e.caller@, e.call).0
}

/// The runtime state after a block's operations run in order.
pub open spec fn spec_apply_extrinsics(rv: RuntimeView, s: Seq<Extrinsic>) -> RuntimeView
    decreases s.len(),
{
    if s.len() == 0 {
        rv
    } else {
        spec_apply_extrinsics(spec_step(rv, s[0]), s.drop_first())
    }
}

/// Running one more operation after a sequence is one more step of the fold.
pub proof fn lemma_apply_push(rv: RuntimeView, s: Seq<Extrinsic>, e: Extrinsic)
    ensures
        spec_apply_extrinsics(rv, s.push(e)) == spec_step(spec_apply_extrinsics(rv, s), e),
    decreases s.len(),
{
    if s.len() == 0 {
        assert(s.push(e)[0] == e);
        assert(s.push(e).drop_first() =~= Seq::<Extrinsic>::empty());
        assert(spec_apply_extrinsics(rv, s.push(e)) == spec_apply_extrinsics(
            spec_step(rv, e),
            s.push(e).drop_first(),
        ));
        assert(spec_apply_extrinsics(spec_step(rv, e), Seq::<Extrinsic>::empty())
            == spec_step(rv, e));
        assert(spec_apply_extrinsics(rv, s) == rv);
    } else {
        assert(s.push(e)[0] == s[0]);
        assert(s.push(e).drop_first() =~= s.drop_first().push(e));
        lemma_apply_push(spec_step(rv, s[0]), s.drop_first(), e);
        assert(spec_apply_extrinsics(rv, s.push(e)) == spec_apply_extrinsics(
            spec_step(rv, s[0]),
            s.drop_first().push(e),
        ));
        assert(spec_apply_extrinsics(rv, s) == spec_apply_extrinsics(
            spec_step(rv, s[0]),
            s.drop_first(),
        ));
    }
}

impl Runtime {
    /// A fresh runtime: every module in its empty initial state.
    pub fn new() -> (r: Self)
        ensures
            r.wf(),
            r@.block_number == 0,
            r@.nonce == Map::<Seq<char>, Nonce>::empty(),
            r@.balances == Map::<Seq<char>, Balance>::empty(),
    {
        Runtime { system: system::Pallet::new(), balances: balances::Pallet::new() }
    }

    /// Executes one block: the block number advances by one before anything
    /// else; a header declaring any other number rejects the whole block
    /// with `BlockNumberMismatch`, running no operation. With a valid
    /// header the operations run strictly in order, each counting its
    /// caller's nonce whether or not it succeeds, and one operation's
    /// failure never stops the rest.
    pub fn execute_block(&mut self, block: Block) -> (r: DispatchResult)
        requires
            old(self).wf(),
            old(self)@.block_number < u32::MAX,
            block.header.block_number == old(self)@.block_number + 1 ==> forall|i: int|
                0 <= i < block.extrinsics@.len() ==> nonce_of(
                    old(self)@.nonce,
                    block.extrinsics@[i].caller@,
                ) + block.extrinsics@.len() <= u32::MAX,
        ensures
            final(self).wf(),
            r == if block.header.block_number == old(self)@.block_number + 1 {
                Ok::<(), ErrorKind>(())
            } else {
                Err::<(), ErrorKind>(ErrorKind::BlockNumberMismatch)
            },
            block.header.block_number != old(self)@.block_number + 1 ==> final(self)@
                == (RuntimeView {
                block_number: (old(self)@.block_number + 1) as BlockNumber,
                ..old(self)@
            }),
            block.header.block_number == old(self)@.block_number + 1 ==> final(self)@
                == spec_apply_extrinsics(
                (RuntimeView { block_number: block.header.block_number, ..old(self)@ }),
                block.extrinsics@,
            ),
    {
        self.system.inc_block_number();
        if self.system.block_number() != block.header.block_number {
            return Err(ErrorKind::BlockNumberMismatch);
        }

        let support::Block { header: _, extrinsics: mut extrinsics } = block;
        let ghost base: RuntimeView = self@;
        let ghost all: Seq<Extrinsic> = extrinsics@;
        let ghost mut done: Seq<Extrinsic> = Seq::empty();

        while extrinsics.len() > 0
            invariant
                self.wf(),
                all == done + extrinsics@,
                self@ == spec_apply_extrinsics(base, done),
                forall|j: int|
                    0 <= j < extrinsics@.len() ==> nonce_of(
                        self@.nonce,
                        extrinsics@[j].caller@,
                    ) + extrinsics@.len() <= u32::MAX,
            decreases extrinsics@.len(),
        {
            let ghost prev: RuntimeView = self@;
            let ghost rem_before: Seq<Extrinsic> = extrinsics@;
            let e = extrinsics.remove(0);
            let ghost ge: Extrinsic = e;
            let support::Extrinsic { caller, call } = e;

            proof {
                assert(ge == rem_before[0]);
                assert(nonce_of(prev.nonce, rem_before[0].caller@) + rem_before.len()
                    <= u32::MAX);
            }
            self.system.inc_nonce(&caller);
            let _ = self.dispatch(caller, call);

            proof {
                assert(self@.nonce == spec_count_attempt(prev.nonce, ge.caller@));
                assert(self@ == spec_step(prev, ge));
                lemma_apply_push(base, done, ge);
                done = done.push(ge);
                assert(done + extrinsics@ =~= all);
                assert(extrinsics@ =~= rem_before.drop_first());
                assert forall|j: int|
                    0 <= j < extrinsics@.len() implies nonce_of(
                        self@.nonce,
                        extrinsics@[j].caller@,
                    ) + extrinsics@.len() <= u32::MAX by {
                    assert(extrinsics@[j] == rem_before[j + 1]);
                    assert(nonce_of(prev.nonce, rem_before[j + 1].caller@) + rem_before.len()
                        <= u32::MAX);
                    assert(nonce_of(prev.nonce, rem_before[0].caller@) + rem_before.len()
                        <= u32::MAX);
                }
            }
        }

        proof {
            assert(done =~= all);
        }
        Ok(())
    }
}

/// In a block of two transfers where the first asks for more than its
/// caller holds and the second is valid, the first leaves the ledger alone,
/// the second lands, and both callers' nonces count the attempt: one failed
/// operation neither stops the block nor undoes the rest.
pub proof fn lemma_partial_block_progress(
    rv: RuntimeView,
    e1: Extrinsic,
    e2: Extrinsic,
    to1: AccountId,
    amount1: Balance,
    to2: AccountId,
    amount2: Balance,
)
    requires
        e1.call == RuntimeCall::Balances(balances::Call::Transfer { to: to1, amount: amount1 }),
        e2.call == RuntimeCall::Balances(balances::Call::Transfer { to: to2, amount: amount2 }),
        amount1 > balances::balance_of(rv.balances, e1.caller@),
        amount2 <= balances::balance_of(rv.balances, e2.caller@),
        balances::balance_of(rv.balances, to2@) + amount2 <= u128::MAX,
    ensures
        ({
            let fin = spec_apply_extrinsics(rv, seq![e1, e2]);
            &&& fin.balances == balances::spec_transfer(
                rv.balances,
                e2.caller@,
                to2@,
                amount2,
            ).0
            &&& fin.nonce == spec_count_attempt(
                spec_count_attempt(rv.nonce, e1.caller@),
                e2.caller@,
            )
            &&& fin.block_number == rv.block_number
        }),
{
    let s: Seq<Extrinsic> = seq![e1, e2];
    let rv1 = spec_step(rv, e1);
    let rv2 = spec_step(rv1, e2);
    assert(s[0] == e1);
    assert(s.drop_first() =~= seq![e2]);
    assert(spec_apply_extrinsics(rv, s) == spec_apply_extrinsics(rv1, seq![e2]));
    assert(seq![e2][0] == e2);
    assert(seq![e2].drop_first() =~= Seq::<Extrinsic>::empty());
    assert(spec_apply_extrinsics(rv1, seq![e2]) == spec_apply_extrinsics(
        rv2,
        seq![e2].drop_first(),
    ));
    assert(spec_apply_extrinsics(rv2, seq![e2].drop_first()) == rv2);
    assert(rv1.balances == rv.balances);
}

} // verus!
