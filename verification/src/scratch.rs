//! The typed program: statements, expressions, procedures and scripts.

use vstd::prelude::*;
use crate::dict::strings_view;
use crate::project::Variables;
use crate::project::variable_ids;

verus! {

/// An operand.
///
/// A number literal is kept as the text that the project file writes it in.
#[derive(Debug)]
pub enum Value {
    Number(String),
    String(String),
    Load(String),
    Expression(Box<BlockExpression>),
}

/// A reporter block.
#[derive(Debug)]
pub enum BlockExpression {
    OperatorEquals { left: Value, right: Value },
    OperatorGT { left: Value, right: Value },
    OperatorAdd { left: Value, right: Value },
    OperatorSubtract { left: Value, right: Value },
    ArgumentReporterStringNumber { name: String },
}

/// What a statement does.
#[derive(Debug)]
pub enum BlockOp {
    ControlRepeat { times: Value, body: Box<Block> },
    ControlForever(Box<Block>),
    ControlWait(Value),
    ControlIfElse { condition: Value, consequent: Box<Block>, alternative: Option<Box<Block>> },
    ControlStopAll,
    ControlStopScript,
    LooksSay(Value),
    EventWhenFlagClicked,
    DataSetVariableTo { id: String, value: Value },
    DataChangeVariableBy { id: String, value: Value },
    ProceduresCall { proc: String, args: Vec<Value> },
}

/// A statement and the statements that follow it.
#[derive(Debug)]
pub struct Block {
    pub op: BlockOp,
    pub next: Option<Box<Block>>,
}

/// A user-defined procedure.
#[derive(Debug)]
pub struct Procedure {
    pub id: String,
    pub arguments: Vec<String>,
    pub body: Block,
}

/// The typed program of one target.
#[derive(Debug)]
pub struct Target {
    pub variables: Variables,
    pub scripts: Vec<Block>,
    pub procedures: Vec<Procedure>,
}

/// The mathematical value of a [`Value`].
pub ghost enum ValueView {
    Number(Seq<char>),
    String(Seq<char>),
    Load(Seq<char>),
    Expression(Box<BlockExpressionView>),
}

/// The mathematical value of a [`BlockExpression`].
pub ghost enum BlockExpressionView {
    OperatorEquals { left: ValueView, right: ValueView },
    OperatorGT { left: ValueView, right: ValueView },
    OperatorAdd { left: ValueView, right: ValueView },
    OperatorSubtract { left: ValueView, right: ValueView },
    ArgumentReporterStringNumber { name: Seq<char> },
}

/// The mathematical value of a [`BlockOp`].
pub ghost enum BlockOpView {
    ControlRepeat { times: ValueView, body: Box<BlockView> },
    ControlForever(Box<BlockView>),
    ControlWait(ValueView),
    ControlIfElse {
        condition: ValueView,
        consequent: Box<BlockView>,
        alternative: Option<Box<BlockView>>,
    },
    ControlStopAll,
    ControlStopScript,
    LooksSay(ValueView),
    EventWhenFlagClicked,
    DataSetVariableTo { id: Seq<char>, value: ValueView },
    DataChangeVariableBy { id: Seq<char>, value: ValueView },
    ProceduresCall { proc: Seq<char>, args: Seq<ValueView> },
}

/// The mathematical value of a [`Block`].
pub ghost struct BlockView {
    pub op: BlockOpView,
    pub next: Option<Box<BlockView>>,
}

/// The mathematical value of a [`Procedure`].
pub ghost struct ProcedureView {
    pub id: Seq<char>,
    pub arguments: Seq<Seq<char>>,
    pub body: BlockView,
}

/// What the compiler reads of a [`Target`]: the identifiers of its
/// variables, its scripts and its procedures.
pub ghost struct TargetView {
    pub variables: Seq<Seq<char>>,
    pub scripts: Seq<BlockView>,
    pub procedures: Seq<ProcedureView>,
}

/// The mathematical value of an operand.
pub open spec fn value_view(value: Value) -> ValueView
    decreases value,
{
    match value {
        Value::Number(text) => ValueView::Number(text@),
        Value::String(text) => ValueView::String(text@),
        Value::Load(id) => ValueView::Load(id@),
        Value::Expression(e) => ValueView::Expression(Box::new(expression_view(*e))),
    }
}

/// The mathematical value of a reporter.
pub open spec fn expression_view(e: BlockExpression) -> BlockExpressionView
    decreases e,
{
    match e {
        BlockExpression::OperatorEquals { left, right } => BlockExpressionView::OperatorEquals {
            left: value_view(left),
            right: value_view(right),
        },
        BlockExpression::OperatorGT { left, right } => BlockExpressionView::OperatorGT {
            left: value_view(left),
            right: value_view(right),
        },
        BlockExpression::OperatorAdd { left, right } => BlockExpressionView::OperatorAdd {
            left: value_view(left),
            right: value_view(right),
        },
        BlockExpression::OperatorSubtract { left, right } => BlockExpressionView::OperatorSubtract {
            left: value_view(left),
            right: value_view(right),
        },
        BlockExpression::ArgumentReporterStringNumber {
            name,
        } => BlockExpressionView::ArgumentReporterStringNumber { name: name@ },
    }
}

/// The views of a list of operands.
pub open spec fn values_view(values: Seq<Value>) -> Seq<ValueView> {
    Seq::new(values.len(), |i: int| value_view(values[i]))
}

/// The mathematical value of a statement.
pub open spec fn op_view(op: BlockOp) -> BlockOpView
    decreases op,
{
    match op {
        BlockOp::ControlRepeat { times, body } => BlockOpView::ControlRepeat {
            times: value_view(times),
            body: Box::new(block_view(*body)),
        },
        BlockOp::ControlForever(body) => BlockOpView::ControlForever(Box::new(block_view(*body))),
        BlockOp::ControlWait(seconds) => BlockOpView::ControlWait(value_view(seconds)),
        BlockOp::ControlIfElse { condition, consequent, alternative } => BlockOpView::ControlIfElse {
            condition: value_view(condition),
            consequent: Box::new(block_view(*consequent)),
            alternative: match alternative {
                Some(b) => Some(Box::new(block_view(*b))),
                None => None,
            },
        },
        BlockOp::ControlStopAll => BlockOpView::ControlStopAll,
        BlockOp::ControlStopScript => BlockOpView::ControlStopScript,
        BlockOp::LooksSay(message) => BlockOpView::LooksSay(value_view(message)),
        BlockOp::EventWhenFlagClicked => BlockOpView::EventWhenFlagClicked,
        BlockOp::DataSetVariableTo { id, value } => BlockOpView::DataSetVariableTo {
            id: id@,
            value: value_view(value),
        },
        BlockOp::DataChangeVariableBy { id, value } => BlockOpView::DataChangeVariableBy {
            id: id@,
            value: value_view(value),
        },
        BlockOp::ProceduresCall { proc, args } => BlockOpView::ProceduresCall {
            proc: proc@,
            args: values_view(args@),
        },
    }
}

/// The mathematical value of a statement chain.
pub open spec fn block_view(block: Block) -> BlockView
    decreases block,
{
    BlockView {
        op: op_view(block.op),
        next: match block.next {
            Some(b) => Some(Box::new(block_view(*b))),
            None => None,
        },
    }
}

/// The views of a list of statement chains.
pub open spec fn blocks_view(blocks: Seq<Block>) -> Seq<BlockView> {
    Seq::new(blocks.len(), |i: int| block_view(blocks[i]))
}

/// The views of a list of procedures.
pub open spec fn procedures_view(procedures: Seq<Procedure>) -> Seq<ProcedureView> {
    Seq::new(procedures.len(), |i: int| procedures[i]@)
}

impl View for Value {
    type V = ValueView;

    open spec fn view(&self) -> ValueView {
        value_view(*self)
    }
}

impl View for BlockExpression {
    type V = BlockExpressionView;

    open spec fn view(&self) -> BlockExpressionView {
        expression_view(*self)
    }
}

impl View for BlockOp {
    type V = BlockOpView;

    open spec fn view(&self) -> BlockOpView {
        op_view(*self)
    }
}

impl View for Block {
    type V = BlockView;

    open spec fn view(&self) -> BlockView {
        block_view(*self)
    }
}

impl View for Procedure {
    type V = ProcedureView;

    open spec fn view(&self) -> ProcedureView {
        ProcedureView {
            id: self.id@,
            arguments: strings_view(self.arguments@),
            body: self.body@,
        }
    }
}

impl View for Target {
    type V = TargetView;

    open spec fn view(&self) -> TargetView {
        TargetView {
            variables: variable_ids(self.variables@),
            scripts: blocks_view(self.scripts@),
            procedures: procedures_view(self.procedures@),
        }
    }
}

/// A copy of an operand.
pub fn copy_value(value: &Value) -> (copy: Value)
    ensures
        copy@ == value@,
    decreases value,
{
    match value {
        Value::Number(text) => Value::Number(text.clone()),
        Value::String(text) => Value::String(text.clone()),
        Value::Load(id) => Value::Load(id.clone()),
        Value::Expression(e) => Value::Expression(Box::new(copy_expression(e))),
    }
}

/// A copy of a reporter.
pub fn copy_expression(e: &BlockExpression) -> (copy: BlockExpression)
    ensures
        copy@ == e@,
    decreases e,
{
    match e {
        BlockExpression::OperatorEquals { left, right } => BlockExpression::OperatorEquals {
            left: copy_value(left),
            right: copy_value(right),
        },
        BlockExpression::OperatorGT { left, right } => BlockExpression::OperatorGT {
            left: copy_value(left),
            right: copy_value(right),
        },
        BlockExpression::OperatorAdd { left, right } => BlockExpression::OperatorAdd {
            left: copy_value(left),
            right: copy_value(right),
        },
        BlockExpression::OperatorSubtract { left, right } => BlockExpression::OperatorSubtract {
            left: copy_value(left),
            right: copy_value(right),
        },
        BlockExpression::ArgumentReporterStringNumber {
            name,
        } => BlockExpression::ArgumentReporterStringNumber { name: name.clone() },
    }
}

/// A copy of a list of operands.
pub fn copy_values(values: &Vec<Value>) -> (copy: Vec<Value>)
    ensures
        values_view(copy@) == values_view(values@),
{
    let mut copy: Vec<Value> = Vec::new();
    let mut i: usize = 0;
    while i < values.len()
        invariant
            i <= values.len(),
            copy@.len() == i,
            forall|k: int| 0 <= k < i ==> (#[trigger] copy@[k])@ == values@[k]@,
        decreases values.len() - i,
    {
        copy.push(copy_value(&values[i]));
        i += 1;
    }
    assert(values_view(copy@) =~= values_view(values@));
    copy
}

/// A copy of a statement.
pub fn copy_op(op: &BlockOp) -> (copy: BlockOp)
    ensures
        copy@ == op@,
    decreases op,
{
    match op {
        BlockOp::ControlRepeat { times, body } => BlockOp::ControlRepeat {
            times: copy_value(times),
            body: Box::new(copy_block(body)),
        },
        BlockOp::ControlForever(body) => BlockOp::ControlForever(Box::new(copy_block(body))),
        BlockOp::ControlWait(seconds) => BlockOp::ControlWait(copy_value(seconds)),
        BlockOp::ControlIfElse { condition, consequent, alternative } => BlockOp::ControlIfElse {
            condition: copy_value(condition),
            consequent: Box::new(copy_block(consequent)),
            alternative: match alternative {
                Some(b) => Some(Box::new(copy_block(b))),
                None => None,
            },
        },
        BlockOp::ControlStopAll => BlockOp::ControlStopAll,
        BlockOp::ControlStopScript => BlockOp::ControlStopScript,
        BlockOp::LooksSay(message) => BlockOp::LooksSay(copy_value(message)),
        BlockOp::EventWhenFlagClicked => BlockOp::EventWhenFlagClicked,
        BlockOp::DataSetVariableTo { id, value } => BlockOp::DataSetVariableTo {
            id: id.clone(),
            value: copy_value(value),
        },
        BlockOp::DataChangeVariableBy { id, value } => BlockOp::DataChangeVariableBy {
            id: id.clone(),
            value: copy_value(value),
        },
        BlockOp::ProceduresCall { proc, args } => BlockOp::ProceduresCall {
            proc: proc.clone(),
            args: copy_values(args),
        },
    }
}

/// A copy of a statement chain.
pub fn copy_block(block: &Block) -> (copy: Block)
    ensures
        copy@ == block@,
    decreases block,
{
    Block {
        op: copy_op(&block.op),
        next: match &block.next {
            Some(b) => Some(Box::new(copy_block(b))),
            None => None,
        },
    }
}

impl Clone for Value {
    fn clone(&self) -> (copy: Value)
        ensures
            copy@ == self@,
    {
        copy_value(self)
    }
}

impl Clone for BlockExpression {
    fn clone(&self) -> (copy: BlockExpression)
        ensures
            copy@ == self@,
    {
        copy_expression(self)
    }
}

impl Clone for BlockOp {
    fn clone(&self) -> (copy: BlockOp)
        ensures
            copy@ == self@,
    {
        copy_op(self)
    }
}

impl Clone for Block {
    fn clone(&self) -> (copy: Block)
        ensures
            copy@ == self@,
    {
        copy_block(self)
    }
}

} // verus!
