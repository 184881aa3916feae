//! What the code generator hands to a native backend: data objects, and
//! functions written as the sequence of steps that builds their control-flow
//! graph.
//!
//! A function body is built as one builds it with a block builder: create a
//! block, switch to it, append instructions, end it with a terminator.
//! Blocks, values, variables and function references are numbered in the
//! order in which the steps create them. [`valid`] says when such a sequence
//! keeps the builder's rules: nothing is used before it exists, nothing is
//! appended to a block that has its terminator, and no block is left without
//! one once it has an instruction or is the target of a branch.

use vstd::prelude::*;

verus! {

/// The type of a value.
#[derive(Debug, Clone, Copy, PartialEq, Eq, Structural)]
pub enum Type {
    /// A 64-bit float.
    F64,
    /// A 32-bit integer.
    I32,
    /// The 8-bit integer that a comparison yields.
    I8,
    /// An integer as wide as an address of the target.
    Pointer,
}

/// A function of the runtime support that compiled programs call.
#[derive(Debug, Clone, Copy, PartialEq, Eq, Structural)]
pub enum Import {
    SpawnScript,
    JoinScripts,
    DetachScripts,
    Sleep,
    Write,
    WriteFloat,
    Exit,
}

impl Import {
    /// The symbol of the function.
    pub open spec fn spec_name(self) -> Seq<char> {
        match self {
            Import::SpawnScript => "spawn_script"@,
            Import::JoinScripts => "join_scripts"@,
            Import::DetachScripts => "detach_scripts"@,
            Import::Sleep => "sleep"@,
            Import::Write => "write"@,
            Import::WriteFloat => "write_float"@,
            Import::Exit => "exit"@,
        }
    }

    /// The types of the function's parameters.
    pub open spec fn spec_params(self) -> Seq<Type> {
        match self {
            Import::SpawnScript => seq![Type::Pointer],
            Import::JoinScripts => seq![],
            Import::DetachScripts => seq![],
            Import::Sleep => seq![Type::I32],
            Import::Write => seq![Type::I32, Type::Pointer, Type::Pointer],
            Import::WriteFloat => seq![Type::F64],
            Import::Exit => seq![Type::I32],
        }
    }

    /// The type of what the function returns, if it returns anything.
    pub open spec fn spec_result(self) -> Option<Type> {
        match self {
            Import::Write => Some(Type::Pointer),
            _ => None,
        }
    }

    /// The symbol of the function.
    pub fn name(self) -> (name: &'static str)
        ensures
            name@ == self.spec_name(),
    {
        match self {
            Import::SpawnScript => "spawn_script",
            Import::JoinScripts => "join_scripts",
            Import::DetachScripts => "detach_scripts",
            Import::Sleep => "sleep",
            Import::Write => "write",
            Import::WriteFloat => "write_float",
            Import::Exit => "exit",
        }
    }

    /// The types of the function's parameters.
    pub fn params(self) -> (params: Vec<Type>)
        ensures
            params@ == self.spec_params(),
    {
        let mut params: Vec<Type> = Vec::new();
        match self {
            Import::SpawnScript => {
                params.push(Type::Pointer);
            },
            Import::JoinScripts => {},
            Import::DetachScripts => {},
            Import::Sleep => {
                params.push(Type::I32);
            },
            Import::Write => {
                params.push(Type::I32);
                params.push(Type::Pointer);
                params.push(Type::Pointer);
            },
            Import::WriteFloat => {
                params.push(Type::F64);
            },
            Import::Exit => {
                params.push(Type::I32);
            },
        }
        assert(params@ =~= self.spec_params());
        params
    }

    /// The type of what the function returns, if it returns anything.
    pub fn result(self) -> (result: Option<Type>)
        ensures
            result == self.spec_result(),
    {
        match self {
            Import::Write => Some(Type::Pointer),
            _ => None,
        }
    }
}

/// One step in building a function body.
#[derive(Debug, Clone)]
pub enum Op {
    /// Creates the next block.
    CreateBlock,
    /// Makes `block` the block that instructions are appended to.
    SwitchToBlock { block: usize },
    /// Gives `block` the function's parameters as block parameters.
    AppendFunctionParams { block: usize },
    /// Declares the next variable.
    DeclareVar { ty: Type },
    /// Defines `var` as `value` from here on.
    DefVar { var: usize, value: usize },
    /// The next value: what `var` holds here.
    UseVar { var: usize },
    /// The next value: parameter `index` of `block`.
    BlockParam { block: usize, index: usize },
    /// The next value: the float that the number literal `text` denotes.
    Number { text: String },
    /// The next value: the float that `text` denotes, zero where it denotes
    /// none.
    Text { text: String },
    /// The next value: the integer `imm`.
    Iconst { ty: Type, imm: u64 },
    /// The next value: the float sum.
    Fadd { a: usize, b: usize },
    /// The next value: the float difference.
    Fsub { a: usize, b: usize },
    /// The next value: whether the floats are equal.
    FloatEq { a: usize, b: usize },
    /// The next value: whether `a` is greater than `b`.
    FloatGt { a: usize, b: usize },
    /// The next value: the float, cut to an unsigned 32-bit integer.
    FcvtToUint { value: usize },
    /// The next value: the result of a comparison as a float, one or zero.
    BoolToFloat { value: usize },
    /// The next value: the integer sum.
    Iadd { a: usize, b: usize },
    /// The next value: the integer difference.
    Isub { a: usize, b: usize },
    /// The next value: the address of data object `data`.
    DataAddr { data: usize },
    /// The next value: the float at `addr`.
    Load { addr: usize },
    /// Writes the float `value` to `addr`.
    Store { value: usize, addr: usize },
    /// The next function reference: a function of the runtime support.
    ImportFunc { import: Import },
    /// The next function reference: function `func` of the module.
    LocalFunc { func: usize },
    /// The next value: the address of a function.
    FuncAddr { func_ref: usize },
    /// Calls a function; what it returns is dropped.
    Call { func_ref: usize, args: Vec<usize> },
    /// Terminator: goes on at `block`.
    Jump { block: usize },
    /// Terminator: goes on at `zero` where `cond` is zero, else at `nonzero`.
    Brz { cond: usize, zero: usize, nonzero: usize },
    /// Terminator: returns from the function.
    Return,
    /// Terminator: a point that is never reached.
    Trap,
}

/// The mathematical value of an [`Op`]: numbers are natural numbers,
/// texts are sequences of characters.
pub ghost enum OpView {
    CreateBlock,
    SwitchToBlock { block: nat },
    AppendFunctionParams { block: nat },
    DeclareVar { ty: Type },
    DefVar { var: nat, value: nat },
    UseVar { var: nat },
    BlockParam { block: nat, index: nat },
    Number { text: Seq<char> },
    Text { text: Seq<char> },
    Iconst { ty: Type, imm: u64 },
    Fadd { a: nat, b: nat },
    Fsub { a: nat, b: nat },
    FloatEq { a: nat, b: nat },
    FloatGt { a: nat, b: nat },
    FcvtToUint { value: nat },
    BoolToFloat { value: nat },
    Iadd { a: nat, b: nat },
    Isub { a: nat, b: nat },
    DataAddr { data: nat },
    Load { addr: nat },
    Store { value: nat, addr: nat },
    ImportFunc { import: Import },
    LocalFunc { func: nat },
    FuncAddr { func_ref: nat },
    Call { func_ref: nat, args: Seq<nat> },
    Jump { block: nat },
    Brz { cond: nat, zero: nat, nonzero: nat },
    Return,
    Trap,
}

/// A list of indices as natural numbers.
pub open spec fn indices_view(indices: Seq<usize>) -> Seq<nat> {
    Seq::new(indices.len(), |i: int| indices[i] as nat)
}

impl View for Op {
    type V = OpView;

    open spec fn view(&self) -> OpView {
        match *self {
            Op::CreateBlock => OpView::CreateBlock,
            Op::SwitchToBlock { block } => OpView::SwitchToBlock { block: block as nat },
            Op::AppendFunctionParams { block } => OpView::AppendFunctionParams {
                block: block as nat,
            },
            Op::DeclareVar { ty } => OpView::DeclareVar { ty },
            Op::DefVar { var, value } => OpView::DefVar { var: var as nat, value: value as nat },
            Op::UseVar { var } => OpView::UseVar { var: var as nat },
            Op::BlockParam { block, index } => OpView::BlockParam {
                block: block as nat,
                index: index as nat,
            },
            Op::Number { text } => OpView::Number { text: text@ },
            Op::Text { text } => OpView::Text { text: text@ },
            Op::Iconst { ty, imm } => OpView::Iconst { ty, imm },
            Op::Fadd { a, b } => OpView::Fadd { a: a as nat, b: b as nat },
            Op::Fsub { a, b } => OpView::Fsub { a: a as nat, b: b as nat },
            Op::FloatEq { a, b } => OpView::FloatEq { a: a as nat, b: b as nat },
            Op::FloatGt { a, b } => OpView::FloatGt { a: a as nat, b: b as nat },
            Op::FcvtToUint { value } => OpView::FcvtToUint { value: value as nat },
            Op::BoolToFloat { value } => OpView::BoolToFloat { value: value as nat },
            Op::Iadd { a, b } => OpView::Iadd { a: a as nat, b: b as nat },
            Op::Isub { a, b } => OpView::Isub { a: a as nat, b: b as nat },
            Op::DataAddr { data } => OpView::DataAddr { data: data as nat },
            Op::Load { addr } => OpView::Load { addr: addr as nat },
            Op::Store { value, addr } => OpView::Store { value: value as nat, addr: addr as nat },
            Op::ImportFunc { import } => OpView::ImportFunc { import },
            Op::LocalFunc { func } => OpView::LocalFunc { func: func as nat },
            Op::FuncAddr { func_ref } => OpView::FuncAddr { func_ref: func_ref as nat },
            Op::Call { func_ref, args } => OpView::Call {
                func_ref: func_ref as nat,
                args: indices_view(args@),
            },
            Op::Jump { block } => OpView::Jump { block: block as nat },
            Op::Brz { cond, zero, nonzero } => OpView::Brz {
                cond: cond as nat,
                zero: zero as nat,
                nonzero: nonzero as nat,
            },
            Op::Return => OpView::Return,
            Op::Trap => OpView::Trap,
        }
    }
}

/// The views of a list of steps.
pub open spec fn ops_view(ops: Seq<Op>) -> Seq<OpView> {
    Seq::new(ops.len(), |i: int| ops[i]@)
}

/// How far a block has been built.
#[derive(Debug, Clone, Copy, PartialEq, Eq, Structural)]
pub enum BlockStatus {
    /// Nothing has been appended.
    Empty,
    /// Instructions have been appended, no terminator yet.
    Partial,
    /// The terminator has been appended.
    Filled,
}

/// Where the building of a function body stands.
pub ghost struct State {
    /// The number of parameters of the function.
    pub params: nat,
    /// The status of each block created so far.
    pub status: Seq<BlockStatus>,
    /// The blocks at which some terminator lets control go on.
    pub targets: Set<nat>,
    /// The block that instructions are appended to.
    pub position: Option<nat>,
    /// The block that holds the function's parameters.
    pub entry: Option<nat>,
    /// The type of each value defined so far.
    pub values: Seq<Type>,
    /// The type of each variable declared so far.
    pub vars: Seq<Type>,
    /// The number of function references made so far.
    pub func_refs: nat,
    /// Every data object referred to so far has an index below this.
    pub data_bound: nat,
    /// Every function of the module referred to so far has an index below
    /// this.
    pub func_bound: nat,
}

impl State {
    /// Before the first step.
    pub open spec fn start(params: nat) -> State {
        State {
            params,
            status: Seq::empty(),
            targets: Set::empty(),
            position: None,
            entry: None,
            values: Seq::empty(),
            vars: Seq::empty(),
            func_refs: 0,
            data_bound: 0,
            func_bound: 0,
        }
    }

    /// Whether block `block` has been created.
    pub open spec fn has_block(self, block: nat) -> bool {
        block < self.status.len()
    }

    /// Whether value `value` has been defined.
    pub open spec fn has_value(self, value: nat) -> bool {
        value < self.values.len()
    }

    /// Whether there is a block to append to which has no terminator yet.
    pub open spec fn open(self) -> bool {
        match self.position {
            Some(p) => self.has_block(p) && self.status[p as int] != BlockStatus::Filled,
            None => false,
        }
    }

    /// Whether the block that is appended to has its terminator.
    pub open spec fn filled(self) -> bool {
        match self.position {
            Some(p) => self.has_block(p) && self.status[p as int] == BlockStatus::Filled,
            None => false,
        }
    }

    /// Whether the block that is appended to can be left for another: there
    /// is none, or it has nothing or its terminator.
    pub open spec fn at_rest(self) -> bool {
        match self.position {
            Some(p) => self.has_block(p) && self.status[p as int] != BlockStatus::Partial,
            None => true,
        }
    }

    /// With the block that is appended to in the given status.
    pub open spec fn mark(self, status: BlockStatus) -> State {
        match self.position {
            Some(p) => if self.has_block(p) {
                State { status: self.status.update(p as int, status), ..self }
            } else {
                self
            },
            None => self,
        }
    }

    /// With one more value, of type `ty`.
    pub open spec fn define(self, ty: Type) -> State {
        State { values: self.values.push(ty), ..self }
    }

    /// The type of the value that the instruction `op` yields, `None` where
    /// `op` is no instruction that yields one.
    pub open spec fn result_type(self, op: OpView) -> Option<Type> {
        match op {
            OpView::UseVar { var } => Some(self.vars[var as int]),
            OpView::Number { .. } => Some(Type::F64),
            OpView::Text { .. } => Some(Type::F64),
            OpView::Iconst { ty, .. } => Some(ty),
            OpView::Fadd { a, .. } => Some(self.values[a as int]),
            OpView::Fsub { a, .. } => Some(self.values[a as int]),
            OpView::FloatEq { .. } => Some(Type::I8),
            OpView::FloatGt { .. } => Some(Type::I8),
            OpView::FcvtToUint { .. } => Some(Type::I32),
            OpView::BoolToFloat { .. } => Some(Type::F64),
            OpView::Iadd { a, .. } => Some(self.values[a as int]),
            OpView::Isub { a, .. } => Some(self.values[a as int]),
            OpView::DataAddr { .. } => Some(Type::Pointer),
            OpView::Load { .. } => Some(Type::F64),
            OpView::FuncAddr { .. } => Some(Type::Pointer),
            _ => None,
        }
    }

    /// Whether everything that `op` names exists.
    pub open spec fn names_exist(self, op: OpView) -> bool {
        match op {
            OpView::SwitchToBlock { block } => self.has_block(block),
            OpView::AppendFunctionParams { block } => self.has_block(block),
            OpView::DefVar { var, value } => var < self.vars.len() && self.has_value(value),
            OpView::UseVar { var } => var < self.vars.len(),
            OpView::BlockParam { block, index } => self.entry == Some(block) && index
                < self.params,
            OpView::Fadd { a, b } => self.has_value(a) && self.has_value(b),
            OpView::Fsub { a, b } => self.has_value(a) && self.has_value(b),
            OpView::FloatEq { a, b } => self.has_value(a) && self.has_value(b),
            OpView::FloatGt { a, b } => self.has_value(a) && self.has_value(b),
            OpView::FcvtToUint { value } => self.has_value(value),
            OpView::BoolToFloat { value } => self.has_value(value),
            OpView::Iadd { a, b } => self.has_value(a) && self.has_value(b),
            OpView::Isub { a, b } => self.has_value(a) && self.has_value(b),
            OpView::Load { addr } => self.has_value(addr),
            OpView::Store { value, addr } => self.has_value(value) && self.has_value(addr),
            OpView::FuncAddr { func_ref } => func_ref < self.func_refs,
            OpView::Call { func_ref, args } => func_ref < self.func_refs && forall|i: int|
                0 <= i < args.len() ==> self.has_value(#[trigger] args[i]),
            OpView::Jump { block } => self.has_block(block),
            OpView::Brz { cond, zero, nonzero } => self.has_value(cond) && self.has_block(zero)
                && self.has_block(nonzero),
            _ => true,
        }
    }

    /// Whether `op` may be the next step.
    pub open spec fn admits(self, op: OpView) -> bool {
        &&& self.names_exist(op)
        &&& match op {
            OpView::CreateBlock => true,
            OpView::SwitchToBlock { block } => self.at_rest() && self.status[block as int]
                != BlockStatus::Filled,
            OpView::AppendFunctionParams { block } => self.entry is None && forall|b: int|
                0 <= b < self.status.len() ==> self.status[b] == BlockStatus::Empty,
            OpView::DeclareVar { .. } => true,
            OpView::DefVar { var, value } => self.position is Some && self.vars[var as int]
                == self.values[value as int],
            OpView::BlockParam { .. } => true,
            OpView::ImportFunc { .. } => true,
            OpView::LocalFunc { .. } => true,
            _ => self.open(),
        }
    }

    /// The state after the step `op`.
    pub open spec fn step(self, op: OpView) -> State {
        match op {
            OpView::CreateBlock => State { status: self.status.push(BlockStatus::Empty), ..self },
            OpView::SwitchToBlock { block } => State { position: Some(block), ..self },
            OpView::AppendFunctionParams { block } => State { entry: Some(block), ..self },
            OpView::DeclareVar { ty } => State { vars: self.vars.push(ty), ..self },
            OpView::DefVar { .. } => self,
            OpView::BlockParam { .. } => self.define(Type::F64),
            OpView::ImportFunc { .. } => State { func_refs: self.func_refs + 1, ..self },
            OpView::LocalFunc { func } => State {
                func_refs: self.func_refs + 1,
                func_bound: if func < self.func_bound {
                    self.func_bound
                } else {
                    func + 1
                },
                ..self
            },
            OpView::DataAddr { data } => State {
                data_bound: if data < self.data_bound {
                    self.data_bound
                } else {
                    data + 1
                },
                ..self.define(Type::Pointer).mark(BlockStatus::Partial)
            },
            OpView::Store { .. } => self.mark(BlockStatus::Partial),
            OpView::Call { .. } => self.mark(BlockStatus::Partial),
            OpView::Jump { block } => State {
                targets: self.targets.insert(block),
                ..self.mark(BlockStatus::Filled)
            },
            OpView::Brz { zero, nonzero, .. } => State {
                targets: self.targets.insert(zero).insert(nonzero),
                ..self.mark(BlockStatus::Filled)
            },
            OpView::Return => self.mark(BlockStatus::Filled),
            OpView::Trap => self.mark(BlockStatus::Filled),
            _ => match self.result_type(op) {
                Some(ty) => self.define(ty).mark(BlockStatus::Partial),
                None => self,
            },
        }
    }

    /// Whether every block that has an instruction, and every block at
    /// which control can go on, has its terminator.
    pub open spec fn complete(self) -> bool {
        forall|b: int|
            0 <= b < self.status.len() ==> self.status[b] != BlockStatus::Partial && (
            self.targets.contains(b as nat) ==> self.status[b] == BlockStatus::Filled)
    }
}

/// The state after the steps `ops` of a function with `params` parameters.
pub open spec fn run(params: nat, ops: Seq<OpView>) -> State
    decreases ops.len(),
{
    if ops.len() == 0 {
        State::start(params)
    } else {
        run(params, ops.drop_last()).step(ops.last())
    }
}

/// Whether each of the steps `ops` may follow those before it.
pub open spec fn admissible(params: nat, ops: Seq<OpView>) -> bool
    decreases ops.len(),
{
    ops.len() == 0 || (admissible(params, ops.drop_last()) && run(params, ops.drop_last()).admits(
        ops.last(),
    ))
}

/// Whether `ops` builds a whole body: each step may follow those before it,
/// and at the end every block that has an instruction, or that control can
/// reach, has its terminator.
pub open spec fn valid(params: nat, ops: Seq<OpView>) -> bool {
    admissible(params, ops) && run(params, ops).complete()
}

/// A data object of local linkage.
#[derive(Debug, Clone)]
pub struct DataDef {
    pub name: String,
    pub writable: bool,
    pub bytes: Vec<u8>,
}

/// The mathematical value of a [`DataDef`].
pub ghost struct DataDefView {
    pub name: Seq<char>,
    pub writable: bool,
    pub bytes: Seq<u8>,
}

impl View for DataDef {
    type V = DataDefView;

    open spec fn view(&self) -> DataDefView {
        DataDefView { name: self.name@, writable: self.writable, bytes: self.bytes@ }
    }
}

/// A function: its symbol, whether the symbol is exported, the number of
/// its parameters, each a float, and the steps that build its body. It
/// returns nothing.
#[derive(Debug, Clone)]
pub struct FunctionDef {
    pub name: String,
    pub export: bool,
    pub params: usize,
    pub body: Vec<Op>,
}

/// The mathematical value of a [`FunctionDef`].
pub ghost struct FunctionDefView {
    pub name: Seq<char>,
    pub export: bool,
    pub params: nat,
    pub body: Seq<OpView>,
}

impl View for FunctionDef {
    type V = FunctionDefView;

    open spec fn view(&self) -> FunctionDefView {
        FunctionDefView {
            name: self.name@,
            export: self.export,
            params: self.params as nat,
            body: ops_view(self.body@),
        }
    }
}

/// The views of a list of data objects.
pub open spec fn data_view(data: Seq<DataDef>) -> Seq<DataDefView> {
    Seq::new(data.len(), |i: int| data[i]@)
}

/// The views of a list of functions.
pub open spec fn functions_view(functions: Seq<FunctionDef>) -> Seq<FunctionDefView> {
    Seq::new(functions.len(), |i: int| functions[i]@)
}

/// A compiled program: data objects and functions, each numbered by its
/// place in its list.
#[derive(Debug, Clone)]
pub struct Module {
    pub data: Vec<DataDef>,
    pub functions: Vec<FunctionDef>,
}

/// The mathematical value of a [`Module`].
pub ghost struct ModuleView {
    pub data: Seq<DataDefView>,
    pub functions: Seq<FunctionDefView>,
}

impl View for Module {
    type V = ModuleView;

    open spec fn view(&self) -> ModuleView {
        ModuleView { data: data_view(self.data@), functions: functions_view(self.functions@) }
    }
}

impl ModuleView {
    /// Whether every function body is valid and refers only to data objects
    /// and functions that the module holds.
    pub open spec fn valid(self) -> bool {
        forall|i: int|
            0 <= i < self.functions.len() ==> {
                let f = #[trigger] self.functions[i];
                &&& valid(f.params, f.body)
                &&& run(f.params, f.body).data_bound <= self.data.len()
                &&& run(f.params, f.body).func_bound <= self.functions.len()
            }
    }
}

} // verus!
