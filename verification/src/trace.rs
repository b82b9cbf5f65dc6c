//! Traces: a record of each call and creation with those nested in it, and
//! the observers that write it or leave it out.

use vstd::prelude::*;
use crate::action_params::ActionParams;
use crate::bytes::copy_bytes;
use crate::hash::Address;
use crate::uint::U256;

verus! {

/// A call as a trace describes it.
#[derive(Clone, Debug, PartialEq, Eq)]
pub struct Call {
    /// The address that called.
    pub from: Address,
    /// The address that was called.
    pub to: Address,
    /// The value that went with the call.
    pub value: U256,
    /// The gas that the call could use.
    pub gas: U256,
    /// The input.
    pub input: Vec<u8>,
}

/// A creation as a trace describes it.
#[derive(Clone, Debug, PartialEq, Eq)]
pub struct Create {
    /// The address that created.
    pub from: Address,
    /// The value that the new contract got.
    pub value: U256,
    /// The gas that the creation could use.
    pub gas: U256,
    /// The code that made the contract.
    pub init: Vec<u8>,
}

/// What a call that stands came to.
#[derive(Clone, Debug, PartialEq, Eq)]
pub struct CallResult {
    /// The gas that it used.
    pub gas_used: U256,
    /// What it returned.
    pub output: Vec<u8>,
}

/// What a creation that stands came to.
#[derive(Clone, Debug, PartialEq, Eq)]
pub struct CreateResult {
    /// The gas that it used.
    pub gas_used: U256,
    /// The code of the new contract.
    pub code: Vec<u8>,
    /// The address of the new contract.
    pub address: Address,
}

/// What was done.
#[derive(Clone, Debug, PartialEq, Eq)]
pub enum Action {
    /// A call.
    Call(Call),
    /// A creation.
    Create(Create),
}

/// What it came to.
#[derive(Clone, Debug, PartialEq, Eq)]
pub enum Res {
    /// A call that stands.
    Call(CallResult),
    /// A creation that stands.
    Create(CreateResult),
    /// A call that failed.
    FailedCall,
    /// A creation that failed.
    FailedCreate,
}

/// One call or creation, with those nested in it.
#[derive(Debug, PartialEq, Eq)]
pub struct Trace {
    /// How deeply it was nested; the outermost is at depth zero.
    pub depth: usize,
    /// What was done.
    pub action: Action,
    /// The calls and creations made from within it, in order.
    pub subs: Vec<Trace>,
    /// What it came to.
    pub result: Res,
}

/// Whether `call` describes the call that `params` asks for.
pub open spec fn describes_call(call: Call, params: ActionParams) -> bool {
    &&& call.from == params.sender
    &&& call.to == params.address
    &&& call.value == params.value.amount()
    &&& call.gas == params.gas
    &&& call.input@ == params.input()
}

/// Whether `create` describes the creation that `params` asks for.
pub open spec fn describes_create(create: Create, params: ActionParams) -> bool {
    &&& create.from == params.sender
    &&& create.value == params.value.amount()
    &&& create.gas == params.gas
    &&& create.init@ == params.program()
}

/// The trace of a call that stands.
pub open spec fn call_trace(
    call: Call,
    gas_used: U256,
    output: Vec<u8>,
    depth: usize,
    subs: Vec<Trace>,
) -> Trace {
    Trace {
        depth,
        action: Action::Call(call),
        subs,
        result: Res::Call(CallResult { gas_used, output }),
    }
}

/// The trace of a call that failed.
pub open spec fn failed_call_trace(call: Call, depth: usize, subs: Vec<Trace>) -> Trace {
    Trace { depth, action: Action::Call(call), subs, result: Res::FailedCall }
}

/// The trace of a creation that stands.
pub open spec fn create_trace(
    create: Create,
    gas_used: U256,
    code: Vec<u8>,
    address: Address,
    depth: usize,
    subs: Vec<Trace>,
) -> Trace {
    Trace {
        depth,
        action: Action::Create(create),
        subs,
        result: Res::Create(CreateResult { gas_used, code, address }),
    }
}

/// The trace of a creation that failed.
pub open spec fn failed_create_trace(create: Create, depth: usize, subs: Vec<Trace>) -> Trace {
    Trace { depth, action: Action::Create(create), subs, result: Res::FailedCreate }
}

/// An observer of calls and creations. It either records each of them or
/// records nothing; which of the two never changes.
pub trait Tracer: Send + Sized {
    /// Whether this observer records.
    spec fn recording(&self) -> bool;

    /// The traces recorded so far, in order.
    spec fn recorded(&self) -> Seq<Trace>;

    /// The description of a call that is about to be made, where this
    /// observer records.
    fn prepare_trace_call(&self, params: &ActionParams) -> (r: Option<Call>)
        ensures
            r.is_some() == self.recording(),
            r matches Some(call) ==> describes_call(call, *params),
    ;

    /// The description of a creation that is about to be made, where this
    /// observer records.
    fn prepare_trace_create(&self, params: &ActionParams) -> (r: Option<Create>)
        ensures
            r.is_some() == self.recording(),
            r matches Some(create) ==> describes_create(create, *params),
    ;

    /// An empty buffer for what a call returns, where this observer records.
    fn prepare_trace_output(&self) -> (r: Option<Vec<u8>>)
        ensures
            r.is_some() == self.recording(),
            r matches Some(buffer) ==> buffer@.len() == 0,
    ;

    /// Records a call that stands. A call that keeps its caller's context is
    /// left out.
    fn trace_call(
        &mut self,
        call: Option<Call>,
        gas_used: U256,
        output: Option<Vec<u8>>,
        depth: usize,
        subs: Vec<Trace>,
        delegate_call: bool,
    )
        requires
            call.is_some() == old(self).recording(),
            output.is_some() == old(self).recording(),
        ensures
            final(self).recording() == old(self).recording(),
            final(self).recorded() == if old(self).recording() && !delegate_call {
                old(self).recorded().push(
                    call_trace(call.unwrap(), gas_used, output.unwrap(), depth, subs),
                )
            } else {
                old(self).recorded()
            },
    ;

    /// Records a creation that stands.
    fn trace_create(
        &mut self,
        create: Option<Create>,
        gas_used: U256,
        code: Option<Vec<u8>>,
        address: Address,
        depth: usize,
        subs: Vec<Trace>,
    )
        requires
            create.is_some() == old(self).recording(),
            code.is_some() == old(self).recording(),
        ensures
            final(self).recording() == old(self).recording(),
            final(self).recorded() == if old(self).recording() {
                old(self).recorded().push(
                    create_trace(create.unwrap(), gas_used, code.unwrap(), address, depth, subs),
                )
            } else {
                old(self).recorded()
            },
    ;

    /// Records a call that failed. A call that keeps its caller's context is
    /// left out.
    fn trace_failed_call(
        &mut self,
        call: Option<Call>,
        depth: usize,
        subs: Vec<Trace>,
        delegate_call: bool,
    )
        requires
            call.is_some() == old(self).recording(),
        ensures
            final(self).recording() == old(self).recording(),
            final(self).recorded() == if old(self).recording() && !delegate_call {
                old(self).recorded().push(failed_call_trace(call.unwrap(), depth, subs))
            } else {
                old(self).recorded()
            },
    ;

    /// Records a creation that failed.
    fn trace_failed_create(&mut self, create: Option<Create>, depth: usize, subs: Vec<Trace>)
        requires
            create.is_some() == old(self).recording(),
        ensures
            final(self).recording() == old(self).recording(),
            final(self).recorded() == if old(self).recording() {
                old(self).recorded().push(failed_create_trace(create.unwrap(), depth, subs))
            } else {
                old(self).recorded()
            },
    ;

    /// A fresh observer of the same kind, for what is nested in the next call.
    fn subtracer(&self) -> (r: Self)
        ensures
            r.recording() == self.recording(),
            r.recorded() == Seq::<Trace>::empty(),
    ;

    /// Hands out the traces recorded.
    fn traces(self) -> (r: Vec<Trace>)
        ensures
            r@ == self.recorded(),
    ;
}

/// The observer that records.
pub struct ExecutiveTracer {
    traces: Vec<Trace>,
}

impl ExecutiveTracer {
    /// An observer that has recorded nothing yet.
    pub fn new() -> (r: ExecutiveTracer)
        ensures
            r.recording(),
            r.recorded() == Seq::<Trace>::empty(),
    {
        ExecutiveTracer { traces: Vec::new() }
    }
}

impl Default for ExecutiveTracer {
    /// An observer that has recorded nothing yet.
    fn default() -> (r: ExecutiveTracer)
        ensures
            r.recording(),
            r.recorded() == Seq::<Trace>::empty(),
    {
        ExecutiveTracer::new()
    }
}

impl Tracer for ExecutiveTracer {
    open spec fn recording(&self) -> bool {
        true
    }

    closed spec fn recorded(&self) -> Seq<Trace> {
        self.traces@
    }

    fn prepare_trace_call(&self, params: &ActionParams) -> (r: Option<Call>) {
        let input = match &params.data {
            Some(d) => copy_bytes(d.as_slice()),
            None => Vec::new(),
        };
        Some(
            Call {
                from: params.sender,
                to: params.address,
                value: params.value.value(),
                gas: params.gas,
                input,
            },
        )
    }

    fn prepare_trace_create(&self, params: &ActionParams) -> (r: Option<Create>) {
        let init = match &params.code {
            Some(c) => copy_bytes(c.as_slice()),
            None => Vec::new(),
        };
        Some(
            Create { from: params.sender, value: params.value.value(), gas: params.gas, init },
        )
    }

    fn prepare_trace_output(&self) -> (r: Option<Vec<u8>>) {
        Some(Vec::new())
    }

    fn trace_call(
        &mut self,
        call: Option<Call>,
        gas_used: U256,
        output: Option<Vec<u8>>,
        depth: usize,
        subs: Vec<Trace>,
        delegate_call: bool,
    ) {
        if delegate_call {
            return ;
        }
        match (call, output) {
            (Some(call), Some(output)) => {
                self.traces.push(
                    Trace {
                        depth,
                        action: Action::Call(call),
                        subs,
                        result: Res::Call(CallResult { gas_used, output }),
                    },
                );
            },
            _ => {},
        }
    }

    fn trace_create(
        &mut self,
        create: Option<Create>,
        gas_used: U256,
        code: Option<Vec<u8>>,
        address: Address,
        depth: usize,
        subs: Vec<Trace>,
    ) {
        match (create, code) {
            (Some(create), Some(code)) => {
                self.traces.push(
                    Trace {
                        depth,
                        action: Action::Create(create),
                        subs,
                        result: Res::Create(CreateResult { gas_used, code, address }),
                    },
                );
            },
            _ => {},
        }
    }

    fn trace_failed_call(
        &mut self,
        call: Option<Call>,
        depth: usize,
        subs: Vec<Trace>,
        delegate_call: bool,
    ) {
        if delegate_call {
            return ;
        }
        match call {
            Some(call) => {
                self.traces.push(
                    Trace { depth, action: Action::Call(call), subs, result: Res::FailedCall },
                );
            },
            None => {},
        }
    }

    fn trace_failed_create(&mut self, create: Option<Create>, depth: usize, subs: Vec<Trace>) {
        match create {
            Some(create) => {
                self.traces.push(
                    Trace { depth, action: Action::Create(create), subs, result: Res::FailedCreate },
                );
            },
            None => {},
        }
    }

    fn subtracer(&self) -> (r: Self) {
        ExecutiveTracer { traces: Vec::new() }
    }

    fn traces(self) -> (r: Vec<Trace>) {
        self.traces
    }
}

/// The observer that records nothing.
pub struct NoopTracer;

impl Tracer for NoopTracer {
    open spec fn recording(&self) -> bool {
        false
    }

    open spec fn recorded(&self) -> Seq<Trace> {
        Seq::empty()
    }

    fn prepare_trace_call(&self, params: &ActionParams) -> (r: Option<Call>) {
        None
    }

    fn prepare_trace_create(&self, params: &ActionParams) -> (r: Option<Create>) {
        None
    }

    fn prepare_trace_output(&self) -> (r: Option<Vec<u8>>) {
        None
    }

    fn trace_call(
        &mut self,
        call: Option<Call>,
        gas_used: U256,
        output: Option<Vec<u8>>,
        depth: usize,
        subs: Vec<Trace>,
        delegate_call: bool,
    ) {
    }

    fn trace_create(
        &mut self,
        create: Option<Create>,
        gas_used: U256,
        code: Option<Vec<u8>>,
        address: Address,
        depth: usize,
        subs: Vec<Trace>,
    ) {
    }

    fn trace_failed_call(
        &mut self,
        call: Option<Call>,
        depth: usize,
        subs: Vec<Trace>,
        delegate_call: bool,
    ) {
    }

    fn trace_failed_create(&mut self, create: Option<Create>, depth: usize, subs: Vec<Trace>) {
    }

    fn subtracer(&self) -> (r: Self) {
        NoopTracer
    }

    fn traces(self) -> (r: Vec<Trace>) {
        Vec::new()
    }
}

} // verus!
