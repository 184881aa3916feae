//! Building a function body step by step.

use vstd::prelude::*;
use crate::ir::BlockStatus;
use crate::ir::Op;
use crate::ir::OpView;
use crate::ir::State;
use crate::ir::Type;
use crate::ir::admissible;
use crate::ir::ops_view;
use crate::ir::run;

verus! {

/// The steps taken so far, and where they have led.
pub ghost struct Body {
    pub ops: Seq<OpView>,
    pub state: State,
}

impl Body {
    /// The body of a function with `params` parameters before its first
    /// step.
    pub open spec fn start(params: nat) -> Body {
        Body { ops: Seq::empty(), state: State::start(params) }
    }

    /// With `op` as the next step.
    pub open spec fn emit(self, op: OpView) -> Body {
        Body { ops: self.ops.push(op), state: self.state.step(op) }
    }

    /// Whether each step could follow those before it, and `state` is
    /// where they have led.
    pub open spec fn wf(self) -> bool {
        admissible(self.state.params, self.ops) && run(self.state.params, self.ops) == self.state
    }

    /// The number of the value defined last.
    pub open spec fn last_value(self) -> nat {
        (self.state.values.len() - 1) as nat
    }

    /// The number of the block created last.
    pub open spec fn last_block(self) -> nat {
        (self.state.status.len() - 1) as nat
    }
}

/// A step that the state admits keeps a body well-formed.
pub proof fn lemma_emit(body: Body, op: OpView)
    requires
        body.wf(),
        body.state.admits(op),
    ensures
        body.emit(op).wf(),
        body.emit(op).state.params == body.state.params,
{
    assert(body.ops.push(op).drop_last() =~= body.ops);
}

/// No step changes the number of parameters.
pub proof fn lemma_step_params(state: State, op: OpView)
    ensures
        state.step(op).params == state.params,
{
}

/// Records the steps that build one function body.
pub struct Builder {
    ops: Vec<Op>,
    params: usize,
    status: Vec<BlockStatus>,
    targets: Ghost<Set<nat>>,
    position: Option<usize>,
    entry: Option<usize>,
    values: Vec<Type>,
    vars: Vec<Type>,
    func_refs: usize,
    data_bound: usize,
    func_bound: usize,
}

/// An optional index as a natural number.
pub open spec fn option_nat(index: Option<usize>) -> Option<nat> {
    match index {
        Some(i) => Some(i as nat),
        None => None,
    }
}

impl View for Builder {
    type V = Body;

    closed spec fn view(&self) -> Body {
        Body {
            ops: ops_view(self.ops@),
            state: State {
                params: self.params as nat,
                status: self.status@,
                targets: self.targets@,
                position: option_nat(self.position),
                entry: option_nat(self.entry),
                values: self.values@,
                vars: self.vars@,
                func_refs: self.func_refs as nat,
                data_bound: self.data_bound as nat,
                func_bound: self.func_bound as nat,
            },
        }
    }
}

impl Builder {
    /// Whether the steps recorded so far could each follow those before it.
    pub closed spec fn wf(&self) -> bool {
        self@.wf() && self.func_refs <= self.ops@.len()
    }

    /// What holds of every well-formed builder.
    pub proof fn lemma_wf(&self)
        requires
            self.wf(),
        ensures
            self@.wf(),
            self@.state.values.len() <= usize::MAX,
            self@.state.status.len() <= usize::MAX,
            self@.state.vars.len() <= usize::MAX,
            self@.state.func_refs <= usize::MAX,
            self@.state.data_bound <= usize::MAX,
            self@.state.func_bound <= usize::MAX,
    {
        assert(self.values.len() <= usize::MAX);
        assert(self.status.len() <= usize::MAX);
        assert(self.vars.len() <= usize::MAX);
    }

    /// A builder for the body of a function with `params` parameters.
    pub fn new(params: usize) -> (b: Builder)
        ensures
            b.wf(),
            b@ == Body::start(params as nat),
    {
        let b = Builder {
            ops: Vec::new(),
            params,
            status: Vec::new(),
            targets: Ghost(Set::empty()),
            position: None,
            entry: None,
            values: Vec::new(),
            vars: Vec::new(),
            func_refs: 0,
            data_bound: 0,
            func_bound: 0,
        };
        assert(ops_view(b.ops@) =~= Seq::<OpView>::empty());
        assert(b@.state == State::start(params as nat));
        b
    }

    fn record(&mut self, op: Op)
        ensures
            ops_view(final(self).ops@) == ops_view(old(self).ops@).push(op@),
            final(self).ops@.len() == old(self).ops@.len() + 1,
            final(self).params == old(self).params,
            final(self).status == old(self).status,
            final(self).targets == old(self).targets,
            final(self).position == old(self).position,
            final(self).entry == old(self).entry,
            final(self).values == old(self).values,
            final(self).vars == old(self).vars,
            final(self).func_refs == old(self).func_refs,
            final(self).data_bound == old(self).data_bound,
            final(self).func_bound == old(self).func_bound,
    {
        self.ops.push(op);
        assert(ops_view(self.ops@) =~= ops_view(old(self).ops@).push(op@));
    }

    fn mark(&mut self, status: BlockStatus)
        ensures
            final(self)@.state == old(self)@.state.mark(status),
            final(self).targets == old(self).targets,
            final(self).ops == old(self).ops,
            final(self).func_refs == old(self).func_refs,
    {
        match self.position {
            Some(p) => if p < self.status.len() {
                self.status.set(p, status);
            },
            None => {},
        }
    }

    /// Whether the block that is appended to has its terminator.
    pub fn is_filled(&self) -> (filled: bool)
        ensures
            filled == self@.state.filled(),
    {
        match self.position {
            Some(p) => p < self.status.len() && matches!(self.status[p], BlockStatus::Filled),
            None => false,
        }
    }

    /// The number of values defined so far.
    pub fn values(&self) -> (n: usize)
        ensures
            n == self@.state.values.len(),
    {
        self.values.len()
    }

    /// The type of a value.
    pub fn value_type(&self, value: usize) -> (ty: Type)
        requires
            value < self@.state.values.len(),
        ensures
            ty == self@.state.values[value as int],
    {
        self.values[value]
    }

    /// The type of a variable.
    pub fn var_type(&self, var: usize) -> (ty: Type)
        requires
            var < self@.state.vars.len(),
        ensures
            ty == self@.state.vars[var as int],
    {
        self.vars[var]
    }

    /// Creates a block and returns its number.
    pub fn create_block(&mut self) -> (block: usize)
        requires
            old(self).wf(),
        ensures
            final(self).wf(),
            final(self)@ == old(self)@.emit(OpView::CreateBlock),
            block == old(self)@.state.status.len(),
    {
        proof {
            lemma_emit(self@, OpView::CreateBlock);
        }
        let block = self.status.len();
        self.record(Op::CreateBlock);
        self.status.push(BlockStatus::Empty);
        block
    }

    /// Makes `block` the block that instructions are appended to.
    pub fn switch_to_block(&mut self, block: usize)
        requires
            old(self).wf(),
            old(self)@.state.admits(OpView::SwitchToBlock { block: block as nat }),
        ensures
            final(self).wf(),
            final(self)@ == old(self)@.emit(OpView::SwitchToBlock { block: block as nat }),
    {
        proof {
            lemma_emit(self@, OpView::SwitchToBlock { block: block as nat });
        }
        self.record(Op::SwitchToBlock { block });
        self.position = Some(block);
    }

    /// Gives `block` the function's parameters.
    pub fn append_function_params(&mut self, block: usize)
        requires
            old(self).wf(),
            old(self)@.state.admits(OpView::AppendFunctionParams { block: block as nat }),
        ensures
            final(self).wf(),
            final(self)@ == old(self)@.emit(OpView::AppendFunctionParams { block: block as nat }),
    {
        proof {
            lemma_emit(self@, OpView::AppendFunctionParams { block: block as nat });
        }
        self.record(Op::AppendFunctionParams { block });
        self.entry = Some(block);
    }

    /// Declares a variable and returns its number.
    pub fn declare_var(&mut self, ty: Type) -> (var: usize)
        requires
            old(self).wf(),
        ensures
            final(self).wf(),
            final(self)@ == old(self)@.emit(OpView::DeclareVar { ty }),
            var == old(self)@.state.vars.len(),
    {
        proof {
            lemma_emit(self@, OpView::DeclareVar { ty });
        }
        let var = self.vars.len();
        self.record(Op::DeclareVar { ty });
        self.vars.push(ty);
        var
    }

    /// Defines `var` as `value` from here on.
    pub fn def_var(&mut self, var: usize, value: usize)
        requires
            old(self).wf(),
            old(self)@.state.admits(OpView::DefVar { var: var as nat, value: value as nat }),
        ensures
            final(self).wf(),
            final(self)@ == old(self)@.emit(OpView::DefVar { var: var as nat, value: value as nat }),
    {
        proof {
            lemma_emit(self@, OpView::DefVar { var: var as nat, value: value as nat });
        }
        self.record(Op::DefVar { var, value });
    }

    /// Parameter `index` of `block`, as a value.
    pub fn block_param(&mut self, block: usize, index: usize) -> (value: usize)
        requires
            old(self).wf(),
            old(self)@.state.admits(OpView::BlockParam { block: block as nat, index: index as nat }),
        ensures
            final(self).wf(),
            final(self)@ == old(self)@.emit(
                OpView::BlockParam { block: block as nat, index: index as nat },
            ),
            value == old(self)@.state.values.len(),
    {
        proof {
            lemma_emit(self@, OpView::BlockParam { block: block as nat, index: index as nat });
        }
        let value = self.values.len();
        self.record(Op::BlockParam { block, index });
        self.values.push(Type::F64);
        value
    }

    /// Appends an instruction that yields a value of type `ty`, and returns
    /// the number of that value.
    pub fn ins(&mut self, op: Op, ty: Type) -> (value: usize)
        requires
            old(self).wf(),
            old(self)@.state.admits(op@),
            old(self)@.state.result_type(op@) == Some(ty),
            !(op@ is DataAddr),
        ensures
            final(self).wf(),
            final(self)@ == old(self)@.emit(op@),
            value == old(self)@.state.values.len(),
    {
        proof {
            lemma_emit(self@, op@);
        }
        let value = self.values.len();
        self.record(op);
        self.values.push(ty);
        self.mark(BlockStatus::Partial);
        value
    }

    /// Appends the instruction that yields the address of data object
    /// `data`, and returns the number of that value.
    pub fn data_addr(&mut self, data: usize) -> (value: usize)
        requires
            old(self).wf(),
            old(self)@.state.open(),
            data < usize::MAX,
        ensures
            final(self).wf(),
            final(self)@ == old(self)@.emit(OpView::DataAddr { data: data as nat }),
            value == old(self)@.state.values.len(),
    {
        proof {
            lemma_emit(self@, OpView::DataAddr { data: data as nat });
        }
        let value = self.values.len();
        self.record(Op::DataAddr { data });
        self.values.push(Type::Pointer);
        self.mark(BlockStatus::Partial);
        if data >= self.data_bound {
            self.data_bound = data + 1;
        }
        value
    }

    /// Appends a store or a call.
    pub fn effect(&mut self, op: Op)
        requires
            old(self).wf(),
            old(self)@.state.admits(op@),
            op@ is Store || op@ is Call,
        ensures
            final(self).wf(),
            final(self)@ == old(self)@.emit(op@),
    {
        proof {
            lemma_emit(self@, op@);
        }
        self.record(op);
        self.mark(BlockStatus::Partial);
    }

    /// Refers to a function of the runtime support, and returns the number
    /// of the reference.
    pub fn import_func(&mut self, import: crate::ir::Import) -> (func_ref: usize)
        requires
            old(self).wf(),
        ensures
            final(self).wf(),
            final(self)@ == old(self)@.emit(OpView::ImportFunc { import }),
            func_ref == old(self)@.state.func_refs,
    {
        proof {
            lemma_emit(self@, OpView::ImportFunc { import });
        }
        let func_ref = self.func_refs;
        self.record(Op::ImportFunc { import });
        assert(self.ops.len() <= usize::MAX);
        self.func_refs = self.func_refs + 1;
        func_ref
    }

    /// Refers to function `func` of the module, and returns the number of
    /// the reference.
    pub fn local_func(&mut self, func: usize) -> (func_ref: usize)
        requires
            old(self).wf(),
            func < usize::MAX,
        ensures
            final(self).wf(),
            final(self)@ == old(self)@.emit(OpView::LocalFunc { func: func as nat }),
            func_ref == old(self)@.state.func_refs,
    {
        proof {
            lemma_emit(self@, OpView::LocalFunc { func: func as nat });
        }
        let func_ref = self.func_refs;
        self.record(Op::LocalFunc { func });
        assert(self.ops.len() <= usize::MAX);
        self.func_refs = self.func_refs + 1;
        if func >= self.func_bound {
            self.func_bound = func + 1;
        }
        func_ref
    }

    /// Appends a terminator.
    pub fn terminate(&mut self, op: Op)
        requires
            old(self).wf(),
            old(self)@.state.admits(op@),
            op@ is Jump || op@ is Brz || op@ is Return || op@ is Trap,
        ensures
            final(self).wf(),
            final(self)@ == old(self)@.emit(op@),
    {
        proof {
            lemma_emit(self@, op@);
        }
        let ghost reached = match op@ {
            OpView::Jump { block } => self.targets@.insert(block),
            OpView::Brz { zero, nonzero, .. } => self.targets@.insert(zero).insert(nonzero),
            _ => self.targets@,
        };
        self.record(op);
        self.mark(BlockStatus::Filled);
        self.targets = Ghost(reached);
    }

    /// The steps recorded.
    pub fn finish(self) -> (ops: Vec<Op>)
        ensures
            ops_view(ops@) == self@.ops,
    {
        self.ops
    }
}

} // verus!
