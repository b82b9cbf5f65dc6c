//! The interpreter as execution sees it: it runs code against a view of the
//! state and says how much gas is left, or why it stopped.

use vstd::prelude::*;
use crate::action_params::ActionParams;
use crate::engine::Engine;
use crate::externalities::Externalities;
use crate::trace::Tracer;
use crate::uint::U256;

verus! {

/// Why the interpreter stopped before the code ended.
#[derive(Clone, Copy, Debug, PartialEq, Eq)]
#[allow(inconsistent_fields)]
pub enum Error {
    /// The gas did not suffice.
    OutOfGas,
    /// A jump went to a place that is no jump target.
    BadJumpDestination {
        /// The place.
        destination: usize,
    },
    /// The code held a byte that is no instruction.
    BadInstruction {
        /// The byte.
        instruction: u8,
    },
    /// An instruction wanted more operands than the stack held.
    StackUnderflow {
        /// The instruction.
        instruction: &'static str,
        /// The operands it wanted.
        wanted: usize,
        /// The operands there were.
        on_stack: usize,
    },
    /// An instruction would have grown the stack beyond its limit.
    OutOfStack {
        /// The instruction.
        instruction: &'static str,
        /// The places it wanted.
        wanted: usize,
        /// The limit.
        limit: usize,
    },
    /// The interpreter met a fault of its own.
    Internal,
}

/// The gas that is left, or why the interpreter stopped.
pub type Result = core::result::Result<U256, Error>;

/// Whether the result undoes what the call or creation did: every error does,
/// but a fault of the interpreter's own.
pub open spec fn reverts(result: Result) -> bool {
    match result {
        Ok(_) => false,
        Err(Error::Internal) => false,
        Err(_) => true,
    }
}

/// An interpreter. It works on the state only through the view it is given,
/// and what it does depends on its arguments alone, and not on who observes
/// it.
///
/// The library holds no interpreter of its own. What it proves of calls,
/// creations and transactions holds for every interpreter that keeps what is
/// asked of it here.
pub trait Evm: Sync + Sized {
    /// What the interpreter returns for `params` on the view `ext`, and the
    /// view as it leaves it. Each interpreter says what it is.
    spec fn run<T, E>(&self, params: ActionParams, ext: Externalities<'_, T, E, Self>) -> (
        Result,
        Externalities<'_, T, E, Self>,
    );

    /// The observer does not show in what the interpreter does: on two
    /// views that differ in nothing but the observer, and for descriptions
    /// that ask for the same, it returns the same, and leaves views that
    /// again differ in nothing but the observer.
    proof fn lemma_observer_unseen<T1: Tracer, T2: Tracer, E: Engine>(
        &self,
        first: ActionParams,
        second: ActionParams,
        one: Externalities<'_, T1, E, Self>,
        other: Externalities<'_, T2, E, Self>,
    )
        requires
            one.wf(),
            other.wf(),
            first.alike(second),
            one.alike(other),
        ensures
            self.run(first, one).0 == self.run(second, other).0,
            self.run(first, one).1.alike(self.run(second, other).1),
    ;

    /// Runs the code of `params` and returns the gas that is left. What is
    /// asked of every interpreter: it leaves as many checkpoints open as it
    /// found, does not grow the sum of all balances, and does not hand back
    /// more gas than it got.
    fn exec<T: Tracer, E: Engine>(
        &self,
        params: ActionParams,
        ext: &mut Externalities<'_, T, E, Self>,
    ) -> (res: Result)
        requires
            old(ext).wf(),
        ensures
            (res, *final(ext)) == self.run(params, *old(ext)),
            final(ext).follows(*old(ext)),
            res matches Ok(gas_left) ==> gas_left@ <= params.gas@,
    ;
}

} // verus!
