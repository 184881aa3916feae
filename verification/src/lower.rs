//! From statements and operands to the steps that build a function body.

use vstd::prelude::*;
use vstd::utf8::encode_utf8;
use crate::builder::Body;
use crate::builder::Builder;
use crate::ir::BlockStatus;
use crate::ir::DataDef;
use crate::ir::DataDefView;
use crate::ir::Import;
use crate::ir::Op;
use crate::ir::OpView;
use crate::ir::Type;
use crate::ir::data_view;
use crate::ir::indices_view;
use crate::scope::Scope;
use crate::scope::ScopeView;
use crate::scope::check_value;
use crate::scope::find_first;
use crate::scope::find_last;
use crate::scope::first_index;
use crate::scope::last_index;
use crate::scope::lemma_first_index;
use crate::scope::lemma_last_index;
use crate::scratch::BlockExpression;
use crate::scratch::BlockExpressionView;
use crate::scratch::BlockOpView;
use crate::scratch::BlockView;
use crate::scratch::Value;
use crate::scratch::ValueView;
use crate::text::decimal_text;

verus! {

/// The bytes of the data object of a text literal: the text in UTF-8,
/// then a line feed.
pub open spec fn literal_bytes(text: Seq<char>) -> Seq<u8> {
    encode_utf8(text + "\n"@)
}

/// The symbol of the data object of the `k`-th text literal, counted from
/// zero.
pub open spec fn literal_name(k: nat) -> Seq<char> {
    "data_"@ + decimal_text(k)
}

/// The place of a name, zero where it has none.
pub open spec fn place(index: Option<nat>) -> nat {
    match index {
        Some(i) => i,
        None => 0,
    }
}

/// Where the lowering of a function stands: the data objects of the
/// module, the body built so far, and the blocks at which control goes on
/// when it falls off the end of a nested chain, the innermost last.
pub ghost struct Lowering {
    pub data: Seq<DataDefView>,
    pub body: Body,
    pub ends: Seq<nat>,
}

impl Lowering {
    /// With `op` as the next step of the body.
    pub open spec fn emit(self, op: OpView) -> Lowering {
        Lowering { body: self.body.emit(op), ..self }
    }

    /// The number of the value defined last.
    pub open spec fn last_value(self) -> nat {
        self.body.last_value()
    }

    /// The number of the block created last.
    pub open spec fn last_block(self) -> nat {
        self.body.last_block()
    }

    /// The number of the variable declared last.
    pub open spec fn last_var(self) -> nat {
        (self.body.state.vars.len() - 1) as nat
    }

    /// The number of the function reference made last.
    pub open spec fn last_func_ref(self) -> nat {
        (self.body.state.func_refs - 1) as nat
    }

    /// With `block` as the innermost end target.
    pub open spec fn push_end(self, block: nat) -> Lowering {
        Lowering { ends: self.ends.push(block), ..self }
    }

    /// Without the innermost end target.
    pub open spec fn pop_end(self) -> Lowering {
        Lowering { ends: self.ends.drop_last(), ..self }
    }

    /// Control leaves the chain: it goes on at the innermost end target,
    /// or returns from the function where there is none.
    pub open spec fn fall_off_end(self) -> Lowering {
        if self.ends.len() > 0 {
            self.emit(OpView::Jump { block: self.ends.last() })
        } else {
            self.emit(OpView::Return)
        }
    }

    /// With the data object of one more text literal.
    pub open spec fn add_literal(self, text: Seq<char>, scope: ScopeView) -> Lowering {
        Lowering {
            data: self.data.push(
                DataDefView {
                    name: literal_name((self.data.len() - scope.variables.len()) as nat),
                    writable: false,
                    bytes: literal_bytes(text),
                },
            ),
            ..self
        }
    }

    /// What holds between any two statements: the variables' cells and
    /// the function's parameters are in place; the body refers to no data
    /// object and no procedure that is not there; every end target is a
    /// block.
    pub open spec fn sound(self, scope: ScopeView) -> bool {
        &&& scope.variables.len() <= self.data.len()
        &&& scope.arguments.len() <= self.body.state.vars.len()
        &&& self.body.state.data_bound <= self.data.len()
        &&& self.body.state.func_bound <= scope.procedures.len()
        &&& forall|i: int|
            0 <= i < self.ends.len() ==> self.body.state.has_block(#[trigger] self.ends[i])
    }

    /// The address of the data object of the variable `id`.
    pub open spec fn variable_addr(self, id: Seq<char>, scope: ScopeView) -> Lowering {
        self.emit(OpView::DataAddr { data: place(first_index(scope.variables, id)) })
    }
}

/// Whether the operand is a comparison, whose value is no float.
pub open spec fn is_comparison(v: ValueView) -> bool {
    match v {
        ValueView::Expression(e) => *e is OperatorEquals || *e is OperatorGT,
        _ => false,
    }
}

/// The steps that evaluate an operand; its value is the last value
/// defined. The operands of a reporter are evaluated as floats.
pub open spec fn lower_value(v: ValueView, scope: ScopeView, s: Lowering) -> Lowering
    decreases v, 0nat,
{
    match v {
        ValueView::Number(text) => s.emit(OpView::Number { text }),
        ValueView::String(text) => s.emit(OpView::Text { text }),
        ValueView::Load(id) => {
            let s1 = s.variable_addr(id, scope);
            s1.emit(OpView::Load { addr: s1.last_value() })
        },
        ValueView::Expression(e) => match *e {
            BlockExpressionView::OperatorEquals { left, right } => {
                let s1 = lower_float(left, scope, s);
                let s2 = lower_float(right, scope, s1);
                s2.emit(OpView::FloatEq { a: s1.last_value(), b: s2.last_value() })
            },
            BlockExpressionView::OperatorGT { left, right } => {
                let s1 = lower_float(left, scope, s);
                let s2 = lower_float(right, scope, s1);
                s2.emit(OpView::FloatGt { a: s1.last_value(), b: s2.last_value() })
            },
            BlockExpressionView::OperatorAdd { left, right } => {
                let s1 = lower_float(left, scope, s);
                let s2 = lower_float(right, scope, s1);
                s2.emit(OpView::Fadd { a: s1.last_value(), b: s2.last_value() })
            },
            BlockExpressionView::OperatorSubtract { left, right } => {
                let s1 = lower_float(left, scope, s);
                let s2 = lower_float(right, scope, s1);
                s2.emit(OpView::Fsub { a: s1.last_value(), b: s2.last_value() })
            },
            BlockExpressionView::ArgumentReporterStringNumber { name } => s.emit(
                OpView::UseVar { var: place(last_index(scope.arguments, name)) },
            ),
        },
    }
}

/// The steps that evaluate an operand where a float is called for: the
/// steps of the operand, and after a comparison one more, which turns its
/// result into a float.
pub open spec fn lower_float(v: ValueView, scope: ScopeView, s: Lowering) -> Lowering
    decreases v, 1nat,
{
    let s1 = lower_value(v, scope, s);
    if is_comparison(v) {
        s1.emit(OpView::BoolToFloat { value: s1.last_value() })
    } else {
        s1
    }
}

/// The steps that evaluate the first `n` operands in order, each as a
/// float, and the values they yield.
pub open spec fn lower_values(values: Seq<ValueView>, n: nat, scope: ScopeView, s: Lowering) -> (
    Lowering,
    Seq<nat>,
)
    decreases n,
{
    if n == 0 {
        (s, Seq::empty())
    } else {
        let (s1, ids) = lower_values(values, (n - 1) as nat, scope, s);
        let s2 = lower_float(values[n - 1], scope, s1);
        (s2, ids.push(s2.last_value()))
    }
}

/// A wait: the operand, cut to whole seconds, goes to `sleep`.
#[verifier::opaque]
pub open spec fn lower_wait(seconds: ValueView, scope: ScopeView, s: Lowering) -> Lowering {
    let s1 = s.emit(OpView::ImportFunc { import: Import::Sleep });
    let s2 = lower_float(seconds, scope, s1);
    let s3 = s2.emit(OpView::FcvtToUint { value: s2.last_value() });
    s3.emit(OpView::Call { func_ref: s1.last_func_ref(), args: seq![s3.last_value()] })
}

/// A stop of everything: the other scripts are let go, the process exits
/// with status zero, and the point after that is never reached.
#[verifier::opaque]
pub open spec fn lower_stop_all(s: Lowering) -> Lowering {
    let s1 = s.emit(OpView::ImportFunc { import: Import::Exit });
    let s2 = s1.emit(OpView::ImportFunc { import: Import::DetachScripts });
    let s3 = s2.emit(OpView::Call { func_ref: s2.last_func_ref(), args: seq![] });
    let s4 = s3.emit(OpView::Iconst { ty: Type::I32, imm: 0 });
    let s5 = s4.emit(OpView::Call { func_ref: s1.last_func_ref(), args: seq![s4.last_value()] });
    s5.emit(OpView::Trap)
}

/// A say. A text literal becomes a data object, written to file
/// descriptor 1; any other operand is evaluated and printed as a float.
#[verifier::opaque]
pub open spec fn lower_say(message: ValueView, scope: ScopeView, s: Lowering) -> Lowering {
    match message {
        ValueView::String(text) => {
            let s1 = s.emit(OpView::ImportFunc { import: Import::Write });
            let s2 = s1.emit(OpView::Iconst { ty: Type::I32, imm: 1 });
            let s3 = s2.add_literal(text, scope).emit(OpView::DataAddr { data: s2.data.len() });
            let s4 = s3.emit(
                OpView::Iconst { ty: Type::Pointer, imm: literal_bytes(text).len() as u64 },
            );
            s4.emit(
                OpView::Call {
                    func_ref: s1.last_func_ref(),
                    args: seq![s2.last_value(), s3.last_value(), s4.last_value()],
                },
            )
        },
        _ => {
            let s1 = s.emit(OpView::ImportFunc { import: Import::WriteFloat });
            let s2 = lower_float(message, scope, s1);
            s2.emit(OpView::Call { func_ref: s1.last_func_ref(), args: seq![s2.last_value()] })
        },
    }
}

/// An assignment: the operand is evaluated and stored in the variable's
/// cell.
#[verifier::opaque]
pub open spec fn lower_set(id: Seq<char>, value: ValueView, scope: ScopeView, s: Lowering)
    -> Lowering {
    let s1 = lower_float(value, scope, s);
    let s2 = s1.variable_addr(id, scope);
    s2.emit(OpView::Store { value: s1.last_value(), addr: s2.last_value() })
}

/// A change: the cell is loaded, the operand is added, the sum is stored.
#[verifier::opaque]
pub open spec fn lower_change(id: Seq<char>, value: ValueView, scope: ScopeView, s: Lowering)
    -> Lowering {
    let s1 = s.variable_addr(id, scope);
    let s2 = s1.emit(OpView::Load { addr: s1.last_value() });
    let s3 = lower_float(value, scope, s2);
    let s4 = s3.emit(OpView::Fadd { a: s2.last_value(), b: s3.last_value() });
    let s5 = s4.variable_addr(id, scope);
    s5.emit(OpView::Store { value: s4.last_value(), addr: s5.last_value() })
}

/// A call: the operands are evaluated in order and passed to the
/// procedure's function.
#[verifier::opaque]
pub open spec fn lower_call(proc: Seq<char>, args: Seq<ValueView>, scope: ScopeView, s: Lowering)
    -> Lowering {
    let (s1, ids) = lower_values(args, args.len(), scope, s);
    let s2 = s1.emit(OpView::LocalFunc { func: place(first_index(scope.procedures, proc)) });
    s2.emit(OpView::Call { func_ref: s2.last_func_ref(), args: ids })
}

/// The start of a repeat. Three blocks are created: the head, the body
/// and what follows. The trip count, one more than the operand cut to an
/// unsigned 32-bit integer, goes into a new variable. The head takes one
/// from it and leaves the loop where that gives zero.
#[verifier::opaque]
pub open spec fn lower_repeat_head(times: ValueView, scope: ScopeView, s: Lowering) -> Lowering {
    let head = s.body.state.status.len();
    let count = s.body.state.vars.len();
    let s1 = s.emit(OpView::CreateBlock).emit(OpView::CreateBlock).emit(OpView::CreateBlock).emit(
        OpView::DeclareVar { ty: Type::I32 },
    );
    let s2 = lower_float(times, scope, s1);
    let s3 = s2.emit(OpView::FcvtToUint { value: s2.last_value() });
    let s4 = s3.emit(OpView::Iconst { ty: Type::I32, imm: 1 });
    let s5 = s4.emit(OpView::Iadd { a: s3.last_value(), b: s4.last_value() });
    let s6 = s5.emit(OpView::DefVar { var: count, value: s5.last_value() }).emit(
        OpView::Jump { block: head },
    ).emit(OpView::SwitchToBlock { block: head });
    let s7 = s6.emit(OpView::UseVar { var: count });
    let s8 = s7.emit(OpView::Iconst { ty: Type::I32, imm: 1 });
    let s9 = s8.emit(OpView::Isub { a: s7.last_value(), b: s8.last_value() });
    s9.emit(OpView::DefVar { var: count, value: s9.last_value() }).emit(
        OpView::Brz { cond: s9.last_value(), zero: head + 2, nonzero: head + 1 },
    )
}

/// The start of an if. Three blocks are created: the consequent, the
/// alternative and what follows. Where the condition is zero, control goes
/// to the alternative if there is one, else to what follows.
#[verifier::opaque]
pub open spec fn lower_if_head(
    condition: ValueView,
    has_alternative: bool,
    scope: ScopeView,
    s: Lowering,
) -> Lowering {
    let consequent = s.body.state.status.len();
    let s1 = s.emit(OpView::CreateBlock).emit(OpView::CreateBlock).emit(OpView::CreateBlock);
    let s2 = lower_value(condition, scope, s1);
    s2.emit(
        OpView::Brz {
            cond: s2.last_value(),
            zero: if has_alternative {
                consequent + 1
            } else {
                consequent + 2
            },
            nonzero: consequent,
        },
    )
}

/// The steps of one statement, begun in the block that is appended to.
/// A repeat and an if also lower what follows them.
pub open spec fn lower_op(b: BlockView, scope: ScopeView, s: Lowering, block: nat) -> Lowering
    decreases b, 0nat,
{
    match b.op {
        BlockOpView::ControlRepeat { times, body } => {
            let head = s.body.state.status.len();
            let s1 = lower_repeat_head(times, scope, s);
            let s2 = lower_block(*body, scope, s1.push_end(head), head + 1).pop_end();
            match b.next {
                Some(next) => lower_block(*next, scope, s2, head + 2),
                None => s2.emit(OpView::SwitchToBlock { block: head + 2 }).fall_off_end(),
            }
        },
        BlockOpView::ControlForever(body) => lower_block(
            *body,
            scope,
            s.push_end(block),
            block,
        ).pop_end(),
        BlockOpView::ControlWait(seconds) => lower_wait(seconds, scope, s),
        BlockOpView::ControlIfElse { condition, consequent, alternative } => {
            let first = s.body.state.status.len();
            let s1 = lower_if_head(condition, alternative is Some, scope, s);
            let s2 = lower_block(*consequent, scope, s1.push_end(first + 2), first);
            let s3 = match alternative {
                Some(a) => lower_block(*a, scope, s2, first + 1),
                None => s2,
            }.pop_end();
            match b.next {
                Some(next) => lower_block(*next, scope, s3, first + 2),
                None => s3.emit(OpView::SwitchToBlock { block: first + 2 }).fall_off_end(),
            }
        },
        BlockOpView::ControlStopAll => lower_stop_all(s),
        BlockOpView::ControlStopScript => s.emit(OpView::Return),
        BlockOpView::LooksSay(message) => lower_say(message, scope, s),
        BlockOpView::EventWhenFlagClicked => s,
        BlockOpView::DataSetVariableTo { id, value } => lower_set(id, value, scope, s),
        BlockOpView::DataChangeVariableBy { id, value } => lower_change(id, value, scope, s),
        BlockOpView::ProceduresCall { proc, args } => lower_call(proc, args, scope, s),
    }
}

/// The steps of a statement chain, begun in `block`. After a statement
/// that leaves its block without a terminator, the next statement gets a
/// block of its own; after the last, control falls off the end.
pub open spec fn lower_block(b: BlockView, scope: ScopeView, s: Lowering, block: nat) -> Lowering
    decreases b, 1nat,
{
    let s1 = lower_op(b, scope, s.emit(OpView::SwitchToBlock { block }), block);
    if s1.body.state.filled() {
        s1
    } else {
        match b.next {
            Some(next) => {
                let s2 = s1.emit(OpView::CreateBlock);
                lower_block(
                    *next,
                    scope,
                    s2.emit(OpView::Jump { block: s2.last_block() }),
                    s2.last_block(),
                )
            },
            None => s1.fall_off_end(),
        }
    }
}

/// Whether `after` holds the data objects of `before`, each in its place,
/// and after them only data objects that are read-only.
pub open spec fn grown(before: Seq<DataDefView>, after: Seq<DataDefView>) -> bool {
    &&& after.len() >= before.len()
    &&& forall|j: int| 0 <= j < before.len() ==> #[trigger] after[j] == before[j]
    &&& forall|j: int| before.len() <= j < after.len() ==> !(#[trigger] after[j]).writable
}

/// What no lowering changes, and what a lowering only adds to.
pub open spec fn extends(before: Lowering, after: Lowering) -> bool {
    let b = before.body.state;
    let a = after.body.state;
    &&& after.ends == before.ends
    &&& grown(before.data, after.data)
    &&& a.params == b.params
    &&& a.entry == b.entry
    &&& a.status.len() >= b.status.len()
    &&& a.values.len() >= b.values.len()
    &&& a.vars.len() >= b.vars.len()
    &&& a.func_refs >= b.func_refs
}

/// Whether every block at which control can go on after `after` has its
/// terminator, unless control could go on at it already, or it is an end
/// target.
pub open spec fn settled(before: Lowering, after: Lowering) -> bool {
    forall|x: nat| #[trigger]
        after.body.state.targets.contains(x) ==> (after.body.state.has_block(x)
            && after.body.state.status[x as int] == BlockStatus::Filled)
            || before.body.state.targets.contains(x) || before.ends.contains(x)
}

/// What holds after steps that stay in one block: no block is created, and
/// no block but the one appended to changes.
pub open spec fn straight(before: Lowering, after: Lowering) -> bool {
    let b = before.body.state;
    let a = after.body.state;
    &&& extends(before, after)
    &&& a.position == b.position
    &&& a.status.len() == b.status.len()
    &&& forall|x: int|
        0 <= x < b.status.len() && Some(x as nat) != b.position ==> a.status[x] == b.status[x]
}

/// What holds after the steps of an operand: they stay in one block,
/// leave it without a terminator, and define a value.
pub open spec fn evaluated(before: Lowering, after: Lowering) -> bool {
    &&& straight(before, after)
    &&& after.body.state.open()
    &&& after.body.state.values.len() > before.body.state.values.len()
    &&& after.body.state.vars == before.body.state.vars
    &&& after.body.state.targets == before.body.state.targets
    &&& after.data == before.data
}

/// What holds after the steps of a statement chain begun in `block`: the
/// block that is appended to has its terminator, and so has `block`; no
/// other block that was there has changed, and no block that was created
/// is left without one.
pub open spec fn block_built(before: Lowering, after: Lowering, block: nat) -> bool {
    let b = before.body.state;
    let a = after.body.state;
    &&& extends(before, after)
    &&& settled(before, after)
    &&& a.filled()
    &&& a.status[block as int] == BlockStatus::Filled
    &&& forall|x: int| 0 <= x < b.status.len() && x != block ==> a.status[x] == b.status[x]
    &&& forall|x: int| b.status.len() <= x < a.status.len() ==> a.status[x] != BlockStatus::Partial
}

/// What holds after the steps of one statement begun in `block`: as
/// after a chain, but that the block may be left without its terminator,
/// and is then still the one appended to.
pub open spec fn op_built(before: Lowering, after: Lowering, block: nat) -> bool {
    let b = before.body.state;
    let a = after.body.state;
    &&& extends(before, after)
    &&& settled(before, after)
    &&& a.filled() || a.open()
    &&& a.filled() ==> a.status[block as int] == BlockStatus::Filled
    &&& !a.filled() ==> a.position == Some(block)
    &&& forall|x: int| 0 <= x < b.status.len() && x != block ==> a.status[x] == b.status[x]
    &&& forall|x: int| b.status.len() <= x < a.status.len() ==> a.status[x] != BlockStatus::Partial
}

/// The state of the lowering of one function.
pub struct BlockCompiler {
    pub data: Vec<DataDef>,
    pub f: Builder,
    pub ends: Vec<usize>,
}

impl View for BlockCompiler {
    type V = Lowering;

    open spec fn view(&self) -> Lowering {
        Lowering { data: data_view(self.data@), body: self.f@, ends: indices_view(self.ends@) }
    }
}

impl BlockCompiler {
    /// What holds between any two statements: the body is well-formed,
    /// and the lowering is sound.
    pub open spec fn inv(&self, scope: ScopeView) -> bool {
        self.f.wf() && self@.sound(scope)
    }

    pub(crate) fn variable_addr(&mut self, id: &str, scope: &Scope) -> (value: usize)
        requires
            old(self).inv(scope@),
            old(self)@.body.state.open(),
            first_index(scope@.variables, id@) is Some,
        ensures
            final(self).inv(scope@),
            final(self)@ == old(self)@.variable_addr(id@, scope@),
            value == final(self)@.last_value(),
            evaluated(old(self)@, final(self)@),
    {
        proof {
            lemma_first_index(scope@.variables, id@);
            self.f.lemma_wf();
        }
        assert(scope.variables.len() <= usize::MAX);
        let data = match find_first(scope.variables, id) {
            Some(i) => i,
            None => 0,
        };
        self.f.data_addr(data)
    }

    pub(crate) fn push_end(&mut self, block: usize)
        ensures
            final(self)@ == old(self)@.push_end(block as nat),
            final(self).f == old(self).f,
            final(self).data == old(self).data,
    {
        self.ends.push(block);
        assert(indices_view(self.ends@) =~= indices_view(old(self).ends@).push(block as nat));
    }

    pub(crate) fn pop_end(&mut self)
        requires
            old(self).ends@.len() > 0,
        ensures
            final(self)@ == old(self)@.pop_end(),
            final(self).f == old(self).f,
            final(self).data == old(self).data,
    {
        self.ends.pop();
        assert(indices_view(self.ends@) =~= indices_view(old(self).ends@).drop_last());
    }

    /// Control leaves the chain.
    pub fn fall_off_end(&mut self, scope: &Scope)
        requires
            old(self).inv(scope@),
            old(self)@.body.state.open(),
        ensures
            final(self).inv(scope@),
            final(self)@ == old(self)@.fall_off_end(),
            straight(old(self)@, final(self)@),
            settled(old(self)@, final(self)@),
            final(self)@.body.state.filled(),
    {
        if self.ends.len() > 0 {
            let block = self.ends[self.ends.len() - 1];
            assert(self@.ends.last() == block as nat);
            assert(self@.body.state.has_block(self.ends@[self.ends@.len() - 1] as nat));
            self.f.terminate(Op::Jump { block });
        } else {
            self.f.terminate(Op::Return);
        }
    }
}

impl Value {
    /// Whether the operand is a comparison.
    pub fn is_comparison(&self) -> (r: bool)
        ensures
            r == is_comparison(self@),
    {
        match self {
            Value::Expression(e) => {
                assert(self@ == ValueView::Expression(Box::new(e@)));
                match &**e {
                    BlockExpression::OperatorEquals { .. } => true,
                    BlockExpression::OperatorGT { .. } => true,
                    _ => false,
                }
            },
            _ => false,
        }
    }

    /// Appends the steps that evaluate the operand, and returns the number
    /// of its value.
    pub fn build(&self, scope: &Scope, c: &mut BlockCompiler) -> (value: usize)
        requires
            old(c).inv(scope@),
            old(c)@.body.state.open(),
            check_value(self@, scope@) is Ok,
        ensures
            final(c).inv(scope@),
            final(c)@ == lower_value(self@, scope@, old(c)@),
            value == final(c)@.last_value(),
            evaluated(old(c)@, final(c)@),
        decreases self, 0nat,
    {
        match self {
            Value::Number(text) => c.f.ins(Op::Number { text: text.clone() }, Type::F64),
            Value::String(text) => c.f.ins(Op::Text { text: text.clone() }, Type::F64),
            Value::Load(id) => {
                let addr = c.variable_addr(id.as_str(), scope);
                c.f.ins(Op::Load { addr }, Type::F64)
            },
            Value::Expression(e) => {
                assert(self@ == ValueView::Expression(Box::new(e@)));
                e.build(scope, c)
            },
        }
    }

    /// Appends the steps that evaluate the operand as a float, and
    /// returns the number of its value.
    pub fn build_float(&self, scope: &Scope, c: &mut BlockCompiler) -> (value: usize)
        requires
            old(c).inv(scope@),
            old(c)@.body.state.open(),
            check_value(self@, scope@) is Ok,
        ensures
            final(c).inv(scope@),
            final(c)@ == lower_float(self@, scope@, old(c)@),
            value == final(c)@.last_value(),
            evaluated(old(c)@, final(c)@),
        decreases self, 1nat,
    {
        let value = self.build(scope, c);
        if self.is_comparison() {
            c.f.ins(Op::BoolToFloat { value }, Type::F64)
        } else {
            value
        }
    }
}

impl BlockExpression {
    /// Appends the steps that evaluate the reporter, and returns the number
    /// of its value.
    pub fn build(&self, scope: &Scope, c: &mut BlockCompiler) -> (value: usize)
        requires
            old(c).inv(scope@),
            old(c)@.body.state.open(),
            check_value(ValueView::Expression(Box::new(self@)), scope@) is Ok,
        ensures
            final(c).inv(scope@),
            final(c)@ == lower_value(ValueView::Expression(Box::new(self@)), scope@, old(c)@),
            value == final(c)@.last_value(),
            evaluated(old(c)@, final(c)@),
        decreases self, 0nat,
    {
        match self {
            BlockExpression::OperatorEquals { left, right } => {
                let a = left.build_float(scope, c);
                let b = right.build_float(scope, c);
                c.f.ins(Op::FloatEq { a, b }, Type::I8)
            },
            BlockExpression::OperatorGT { left, right } => {
                let a = left.build_float(scope, c);
                let b = right.build_float(scope, c);
                c.f.ins(Op::FloatGt { a, b }, Type::I8)
            },
            BlockExpression::OperatorAdd { left, right } => {
                let a = left.build_float(scope, c);
                let b = right.build_float(scope, c);
                let ty = c.f.value_type(a);
                c.f.ins(Op::Fadd { a, b }, ty)
            },
            BlockExpression::OperatorSubtract { left, right } => {
                let a = left.build_float(scope, c);
                let b = right.build_float(scope, c);
                let ty = c.f.value_type(a);
                c.f.ins(Op::Fsub { a, b }, ty)
            },
            BlockExpression::ArgumentReporterStringNumber { name } => {
                proof {
                    lemma_last_index(scope@.arguments, name@);
                }
                let var = match find_last(scope.arguments, name.as_str()) {
                    Some(i) => i,
                    None => 0,
                };
                let ty = c.f.var_type(var);
                c.f.ins(Op::UseVar { var }, ty)
            },
        }
    }
}

} // verus!
