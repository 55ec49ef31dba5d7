use vstd::prelude::*;

verus! {

/// The ways an operation or a block can fail.
#[derive(Clone, Copy, Debug, PartialEq, Eq, Structural)]
pub enum ErrorKind {
    /// A transfer asked for more than the caller holds.
    InsufficientBalance,
    /// A transfer would push the recipient past the largest representable balance.
    BalanceOverflow,
    /// A block declared a number other than the one that comes next.
    BlockNumberMismatch,
}

/// The outcome of dispatching one operation, or of executing one block.
pub type DispatchResult = Result<(), ErrorKind>;

/// A block header: the number this block claims in the chain.
#[derive(Debug)]
pub struct Header<BlockNumber> {
    pub block_number: BlockNumber,
}

/// One operation submitted for execution: who calls, and what they call.
#[derive(Debug)]
pub struct Extrinsic<Caller, Call> {
    pub caller: Caller,
    pub call: Call,
}

/// A block: a header plus the operations to run, in order.
#[derive(Debug)]
pub struct Block<H, E> {
    pub header: H,
    pub extrinsics: Vec<E>,
}

/// The capability a module offers to the runtime: execute one tagged call on
/// behalf of a caller, mutating the module's own state.
///
/// `dispatch_spec` is the module's own statement of what `dispatch` does:
/// given the view of the state before the call, it yields the view of the
/// state after the call and the result. Every implementation of `dispatch`
/// must meet its own `dispatch_spec` and preserve its own well-formedness
/// `wf`, so composing modules behind this trait loses nothing of their
/// contracts.
pub trait Dispatch: Sized + View {
    type Caller: View;
    type Call;

    /// The module's internal invariant, established at construction and
    /// preserved by every dispatch.
    spec fn wf(self) -> bool;

    /// What one dispatched call does to the module's state, and its result.
    spec fn dispatch_spec(
        pre: Self::V,
        caller: <Self::Caller as View>::V,
        call: Self::Call,
    ) -> (Self::V, DispatchResult);

    fn dispatch(&mut self, caller: Self::Caller, call: Self::Call) -> (r: DispatchResult)
        requires
            old(self).wf(),
        ensures
            final(self).wf(),
            final(self)@ == Self::dispatch_spec(old(self)@, caller@, call).0,
            r == Self::dispatch_spec(old(self)@, caller@, call).1,
    ;
}

} // verus!
