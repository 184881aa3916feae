//! From block records to the typed program.
//!
//! A block record names other records by identifier: its successor, the
//! first statement of a nested stack, a reporter in an operand slot. The
//! functions here follow those names and build the tree that they span. A
//! chain of names is followed through as many records as the dictionary
//! holds and no further, so that a dictionary whose names run in a circle is
//! refused rather than followed for ever.

use vstd::prelude::*;
use crate::dict::entries_view;
use crate::dict::find;
use crate::dict::lookup;
use crate::dict::strings_view;
use crate::json::Json;
use crate::json::JsonView;
use crate::project::BlockInfo;
use crate::project::BlockInfoView;
use crate::project::Blocks;
use crate::project::BlocksView;
use crate::project::MutationInfo;
use crate::project::MutationInfoView;
use crate::project::TargetInfo;
use crate::project::TargetInfoView;
use crate::project::variable_ids;
use crate::scratch::Block;
use crate::scratch::BlockExpression;
use crate::scratch::BlockExpressionView;
use crate::scratch::BlockOp;
use crate::scratch::BlockOpView;
use crate::scratch::BlockView;
use crate::scratch::Procedure;
use crate::scratch::ProcedureView;
use crate::scratch::Target;
use crate::scratch::TargetView;
use crate::scratch::Value;
use crate::scratch::ValueView;
use crate::scratch::blocks_view;
use crate::scratch::procedures_view;
use crate::scratch::values_view;
use crate::text::clone_strings;
use crate::text::str_eq;

verus! {

/// Why a block dictionary could not be turned into a program.
#[derive(Debug, Clone, Copy, PartialEq, Eq, Structural)]
pub enum HydrateError {
    /// A block has an opcode, or a stop option, that is not provided for.
    UnknownOpcode,
    /// A block lacks an operand slot that its opcode calls for, or a literal
    /// in a slot lacks its text.
    MissingInput,
    /// A block lacks a constant slot or a mutation that its opcode calls for.
    MissingField,
    /// A block identifier names no block of the dictionary, stands where
    /// none can be read, or lies deeper than the dictionary has blocks.
    BadReference,
}

/// A result with its value replaced by the value's view.
pub open spec fn result_view<T: View>(r: Result<T, HydrateError>) -> Result<T::V, HydrateError> {
    match r {
        Ok(v) => Ok(v@),
        Err(e) => Err(e),
    }
}

/// The text at `index` of an array, `MissingInput` without one.
pub open spec fn spec_literal_text(payload: JsonView, index: int) -> Result<
    Seq<char>,
    HydrateError,
> {
    match payload.at(index).text() {
        Some(text) => Ok(text),
        None => Err(HydrateError::MissingInput),
    }
}

/// The operand that a literal record `[kind, ...]` stands for.
pub open spec fn spec_literal(payload: JsonView) -> Result<ValueView, HydrateError> {
    match payload.at(0).unsigned() {
        Some(kind) => if 4 <= kind <= 7 {
            match spec_literal_text(payload, 1) {
                Ok(text) => Ok(ValueView::Number(text)),
                Err(e) => Err(e),
            }
        } else if kind == 10 {
            match spec_literal_text(payload, 1) {
                Ok(text) => Ok(ValueView::String(text)),
                Err(e) => Err(e),
            }
        } else if kind == 12 {
            match spec_literal_text(payload, 2) {
                Ok(id) => Ok(ValueView::Load(id)),
                Err(e) => Err(e),
            }
        } else {
            Err(HydrateError::BadReference)
        },
        None => Err(HydrateError::BadReference),
    }
}

/// The block that the descriptor `[tag, id]` names.
pub open spec fn spec_referenced(descriptor: JsonView, blocks: BlocksView) -> Result<
    BlockInfoView,
    HydrateError,
> {
    match descriptor.at(1).text() {
        Some(id) => match lookup(blocks, id) {
            Some(b) => Ok(b),
            None => Err(HydrateError::BadReference),
        },
        None => Err(HydrateError::BadReference),
    }
}

/// The operand that the descriptor `[tag, payload]` stands for: a literal
/// where the payload is an array, else the reporter that the payload names.
pub open spec fn spec_hydrate(descriptor: JsonView, blocks: BlocksView, depth: nat) -> Result<
    ValueView,
    HydrateError,
>
    decreases depth, 0nat, 0nat,
{
    if descriptor.at(1) is Array {
        spec_literal(descriptor.at(1))
    } else {
        match spec_referenced(descriptor, blocks) {
            Err(e) => Err(e),
            Ok(b) => if depth == 0 {
                Err(HydrateError::BadReference)
            } else {
                match spec_build_block_expr(b, blocks, (depth - 1) as nat) {
                    Ok(e) => Ok(ValueView::Expression(Box::new(e))),
                    Err(e) => Err(e),
                }
            },
        }
    }
}

/// The operand in the slot `slot` of `b`.
pub open spec fn spec_input(b: BlockInfoView, slot: Seq<char>, blocks: BlocksView, depth: nat)
    -> Result<ValueView, HydrateError>
    decreases depth, 1nat, 0nat,
{
    match lookup(b.inputs, slot) {
        Some(descriptor) => spec_hydrate(descriptor, blocks, depth),
        None => Err(HydrateError::MissingInput),
    }
}

/// The operands in the slots `first` and `second` of `b`.
pub open spec fn spec_operands(
    b: BlockInfoView,
    first: Seq<char>,
    second: Seq<char>,
    blocks: BlocksView,
    depth: nat,
) -> Result<(ValueView, ValueView), HydrateError>
    decreases depth, 2nat, 0nat,
{
    match spec_input(b, first, blocks, depth) {
        Err(e) => Err(e),
        Ok(left) => match spec_input(b, second, blocks, depth) {
            Err(e) => Err(e),
            Ok(right) => Ok((left, right)),
        },
    }
}

/// The operands in the slots `slots` of `b`, in order.
pub open spec fn spec_arguments(
    b: BlockInfoView,
    slots: Seq<Seq<char>>,
    blocks: BlocksView,
    depth: nat,
) -> Result<Seq<ValueView>, HydrateError>
    decreases depth, 2nat, slots.len(),
{
    if slots.len() == 0 {
        Ok(Seq::empty())
    } else {
        match spec_arguments(b, slots.drop_last(), blocks, depth) {
            Err(e) => Err(e),
            Ok(values) => match spec_input(b, slots.last(), blocks, depth) {
                Err(e) => Err(e),
                Ok(value) => Ok(values.push(value)),
            },
        }
    }
}

/// The text at `index` of the constant slot `slot` of `b`.
pub open spec fn spec_field(b: BlockInfoView, slot: Seq<char>, index: int) -> Result<
    Seq<char>,
    HydrateError,
> {
    match lookup(b.fields, slot) {
        Some(field) => match field.at(index).text() {
            Some(text) => Ok(text),
            None => Err(HydrateError::MissingField),
        },
        None => Err(HydrateError::MissingField),
    }
}

/// The reporter that the record `b` stands for.
pub open spec fn spec_build_block_expr(b: BlockInfoView, blocks: BlocksView, depth: nat) -> Result<
    BlockExpressionView,
    HydrateError,
>
    decreases depth, 3nat, 0nat,
{
    if b.opcode == "operator_equals"@ {
        match spec_operands(b, "OPERAND1"@, "OPERAND2"@, blocks, depth) {
            Ok((left, right)) => Ok(BlockExpressionView::OperatorEquals { left, right }),
            Err(e) => Err(e),
        }
    } else if b.opcode == "operator_gt"@ {
        match spec_operands(b, "OPERAND1"@, "OPERAND2"@, blocks, depth) {
            Ok((left, right)) => Ok(BlockExpressionView::OperatorGT { left, right }),
            Err(e) => Err(e),
        }
    } else if b.opcode == "operator_add"@ {
        match spec_operands(b, "NUM1"@, "NUM2"@, blocks, depth) {
            Ok((left, right)) => Ok(BlockExpressionView::OperatorAdd { left, right }),
            Err(e) => Err(e),
        }
    } else if b.opcode == "operator_subtract"@ {
        match spec_operands(b, "NUM1"@, "NUM2"@, blocks, depth) {
            Ok((left, right)) => Ok(BlockExpressionView::OperatorSubtract { left, right }),
            Err(e) => Err(e),
        }
    } else if b.opcode == "argument_reporter_string_number"@ {
        match spec_field(b, "VALUE"@, 0) {
            Ok(name) => Ok(BlockExpressionView::ArgumentReporterStringNumber { name }),
            Err(e) => Err(e),
        }
    } else {
        Err(HydrateError::UnknownOpcode)
    }
}

/// The statement chain that starts at the block which the slot `slot` of
/// `b` names.
pub open spec fn spec_substack(b: BlockInfoView, slot: Seq<char>, blocks: BlocksView, depth: nat)
    -> Result<BlockView, HydrateError>
    decreases depth, 1nat, 0nat,
{
    match lookup(b.inputs, slot) {
        None => Err(HydrateError::MissingInput),
        Some(descriptor) => match spec_referenced(descriptor, blocks) {
            Err(e) => Err(e),
            Ok(first) => if depth == 0 {
                Err(HydrateError::BadReference)
            } else {
                spec_build_block(first, blocks, (depth - 1) as nat)
            },
        },
    }
}

/// The statement chain that starts at the block named `next`, if any is named.
pub open spec fn spec_next(next: Option<Seq<char>>, blocks: BlocksView, depth: nat) -> Result<
    Option<Box<BlockView>>,
    HydrateError,
>
    decreases depth, 1nat, 0nat,
{
    match next {
        None => Ok(None),
        Some(id) => match lookup(blocks, id) {
            None => Err(HydrateError::BadReference),
            Some(b) => if depth == 0 {
                Err(HydrateError::BadReference)
            } else {
                match spec_build_block(b, blocks, (depth - 1) as nat) {
                    Ok(block) => Ok(Some(Box::new(block))),
                    Err(e) => Err(e),
                }
            },
        },
    }
}

/// A `control_repeat`.
pub open spec fn spec_repeat(b: BlockInfoView, blocks: BlocksView, depth: nat) -> Result<
    BlockOpView,
    HydrateError,
>
    decreases depth, 3nat, 0nat,
{
    match spec_input(b, "TIMES"@, blocks, depth) {
        Err(e) => Err(e),
        Ok(times) => match spec_substack(b, "SUBSTACK"@, blocks, depth) {
            Err(e) => Err(e),
            Ok(body) => Ok(BlockOpView::ControlRepeat { times, body: Box::new(body) }),
        },
    }
}

/// A `control_forever`.
pub open spec fn spec_forever(b: BlockInfoView, blocks: BlocksView, depth: nat) -> Result<
    BlockOpView,
    HydrateError,
>
    decreases depth, 3nat, 0nat,
{
    match spec_substack(b, "SUBSTACK"@, blocks, depth) {
        Err(e) => Err(e),
        Ok(body) => Ok(BlockOpView::ControlForever(Box::new(body))),
    }
}

/// A `control_if_else`, whose `SUBSTACK2` may be absent.
pub open spec fn spec_if_else(b: BlockInfoView, blocks: BlocksView, depth: nat) -> Result<
    BlockOpView,
    HydrateError,
>
    decreases depth, 3nat, 0nat,
{
    match spec_input(b, "CONDITION"@, blocks, depth) {
        Err(e) => Err(e),
        Ok(condition) => match spec_substack(b, "SUBSTACK"@, blocks, depth) {
            Err(e) => Err(e),
            Ok(consequent) => if lookup(b.inputs, "SUBSTACK2"@) is None {
                Ok(
                    BlockOpView::ControlIfElse {
                        condition,
                        consequent: Box::new(consequent),
                        alternative: None,
                    },
                )
            } else {
                match spec_substack(b, "SUBSTACK2"@, blocks, depth) {
                    Err(e) => Err(e),
                    Ok(alternative) => Ok(
                        BlockOpView::ControlIfElse {
                            condition,
                            consequent: Box::new(consequent),
                            alternative: Some(Box::new(alternative)),
                        },
                    ),
                }
            },
        },
    }
}

/// A `control_stop`: of all, or of this script.
pub open spec fn spec_stop(b: BlockInfoView) -> Result<BlockOpView, HydrateError> {
    match spec_field(b, "STOP_OPTION"@, 0) {
        Err(e) => Err(e),
        Ok(option) => if option == "all"@ {
            Ok(BlockOpView::ControlStopAll)
        } else if option == "this script"@ {
            Ok(BlockOpView::ControlStopScript)
        } else {
            Err(HydrateError::UnknownOpcode)
        },
    }
}

/// The variable and the operand of a `data_setvariableto` or a
/// `data_changevariableby`.
pub open spec fn spec_assignment(b: BlockInfoView, blocks: BlocksView, depth: nat) -> Result<
    (Seq<char>, ValueView),
    HydrateError,
>
    decreases depth, 3nat, 0nat,
{
    match spec_field(b, "VARIABLE"@, 1) {
        Err(e) => Err(e),
        Ok(id) => match spec_input(b, "VALUE"@, blocks, depth) {
            Err(e) => Err(e),
            Ok(value) => Ok((id, value)),
        },
    }
}

/// A `procedures_call`.
pub open spec fn spec_call(b: BlockInfoView, blocks: BlocksView, depth: nat) -> Result<
    BlockOpView,
    HydrateError,
>
    decreases depth, 3nat, 0nat,
{
    match b.mutation {
        None => Err(HydrateError::MissingField),
        Some(mutation) => match spec_arguments(b, mutation.argumentids, blocks, depth) {
            Err(e) => Err(e),
            Ok(args) => Ok(BlockOpView::ProceduresCall { proc: mutation.proccode, args }),
        },
    }
}

/// What the record `b` does, by its opcode. A `looks_sayforsecs` says.
pub open spec fn spec_build_op(b: BlockInfoView, blocks: BlocksView, depth: nat) -> Result<
    BlockOpView,
    HydrateError,
>
    decreases depth, 4nat, 0nat,
{
    if b.opcode == "control_repeat"@ {
        spec_repeat(b, blocks, depth)
    } else if b.opcode == "control_forever"@ {
        spec_forever(b, blocks, depth)
    } else if b.opcode == "control_wait"@ {
        match spec_input(b, "DURATION"@, blocks, depth) {
            Err(e) => Err(e),
            Ok(seconds) => Ok(BlockOpView::ControlWait(seconds)),
        }
    } else if b.opcode == "control_if_else"@ {
        spec_if_else(b, blocks, depth)
    } else if b.opcode == "control_stop"@ {
        spec_stop(b)
    } else if b.opcode == "looks_say"@ || b.opcode == "looks_sayforsecs"@ {
        match spec_input(b, "MESSAGE"@, blocks, depth) {
            Err(e) => Err(e),
            Ok(message) => Ok(BlockOpView::LooksSay(message)),
        }
    } else if b.opcode == "event_whenflagclicked"@ {
        Ok(BlockOpView::EventWhenFlagClicked)
    } else if b.opcode == "data_setvariableto"@ {
        match spec_assignment(b, blocks, depth) {
            Err(e) => Err(e),
            Ok((id, value)) => Ok(BlockOpView::DataSetVariableTo { id, value }),
        }
    } else if b.opcode == "data_changevariableby"@ {
        match spec_assignment(b, blocks, depth) {
            Err(e) => Err(e),
            Ok((id, value)) => Ok(BlockOpView::DataChangeVariableBy { id, value }),
        }
    } else if b.opcode == "procedures_call"@ {
        spec_call(b, blocks, depth)
    } else {
        Err(HydrateError::UnknownOpcode)
    }
}

/// The statement chain that starts at the record `b`, following names
/// through at most `depth` further records. A `looks_sayforsecs` becomes a
/// say, then a wait, then what followed the record.
pub open spec fn spec_build_block(b: BlockInfoView, blocks: BlocksView, depth: nat) -> Result<
    BlockView,
    HydrateError,
>
    decreases depth, 5nat, 0nat,
{
    match spec_build_op(b, blocks, depth) {
        Err(e) => Err(e),
        Ok(op) => if b.opcode == "looks_sayforsecs"@ {
            match spec_input(b, "SECS"@, blocks, depth) {
                Err(e) => Err(e),
                Ok(seconds) => match spec_next(b.next, blocks, depth) {
                    Err(e) => Err(e),
                    Ok(next) => Ok(
                        BlockView {
                            op,
                            next: Some(
                                Box::new(BlockView { op: BlockOpView::ControlWait(seconds), next }),
                            ),
                        },
                    ),
                },
            }
        } else {
            match spec_next(b.next, blocks, depth) {
                Err(e) => Err(e),
                Ok(next) => Ok(BlockView { op, next }),
            }
        },
    }
}

/// Once one operand fails, the whole list fails in the same way.
proof fn lemma_arguments_fail(
    b: BlockInfoView,
    slots: Seq<Seq<char>>,
    n: int,
    blocks: BlocksView,
    depth: nat,
)
    requires
        0 <= n <= slots.len(),
        spec_arguments(b, slots.take(n), blocks, depth) is Err,
    ensures
        spec_arguments(b, slots, blocks, depth) == spec_arguments(b, slots.take(n), blocks, depth),
    decreases slots.len() - n,
{
    if n == slots.len() {
        assert(slots.take(n) =~= slots);
    } else {
        assert(slots.take(n + 1).drop_last() =~= slots.take(n));
        lemma_arguments_fail(b, slots, n + 1, blocks, depth);
    }
}

fn literal_text(payload: &Json, index: usize) -> (r: Result<String, HydrateError>)
    ensures
        result_view(r) == spec_literal_text(payload@, index as int),
{
    match payload.at(index) {
        Some(item) => match item.as_str() {
            Some(text) => Ok(text.to_owned()),
            None => Err(HydrateError::MissingInput),
        },
        None => Err(HydrateError::MissingInput),
    }
}

fn literal(payload: &Json) -> (r: Result<Value, HydrateError>)
    ensures
        result_view(r) == spec_literal(payload@),
{
    let kind = match payload.at(0) {
        Some(item) => item.as_u64(),
        None => None,
    };
    match kind {
        Some(kind) => if 4 <= kind && kind <= 7 {
            match literal_text(payload, 1) {
                Ok(text) => Ok(Value::Number(text)),
                Err(e) => Err(e),
            }
        } else if kind == 10 {
            match literal_text(payload, 1) {
                Ok(text) => Ok(Value::String(text)),
                Err(e) => Err(e),
            }
        } else if kind == 12 {
            match literal_text(payload, 2) {
                Ok(id) => Ok(Value::Load(id)),
                Err(e) => Err(e),
            }
        } else {
            Err(HydrateError::BadReference)
        },
        None => Err(HydrateError::BadReference),
    }
}

fn referenced<'a>(descriptor: &Json, blocks: &'a Blocks) -> (r: Result<&'a BlockInfo, HydrateError>)
    ensures
        match r {
            Ok(b) => spec_referenced(descriptor@, entries_view(blocks@)) == Ok::<
                BlockInfoView,
                HydrateError,
            >(b@),
            Err(e) => spec_referenced(descriptor@, entries_view(blocks@)) == Err::<
                BlockInfoView,
                HydrateError,
            >(e),
        },
{
    let id = match descriptor.at(1) {
        Some(payload) => payload.as_str(),
        None => None,
    };
    match id {
        Some(id) => match find(blocks, id) {
            Some(b) => Ok(b),
            None => Err(HydrateError::BadReference),
        },
        None => Err(HydrateError::BadReference),
    }
}

fn field(b: &BlockInfo, slot: &str, index: usize) -> (r: Result<String, HydrateError>)
    ensures
        result_view(r) == spec_field(b@, slot@, index as int),
{
    match find(&b.fields, slot) {
        Some(field) => {
            let text = match field.at(index) {
                Some(item) => item.as_str(),
                None => None,
            };
            match text {
                Some(text) => Ok(text.to_owned()),
                None => Err(HydrateError::MissingField),
            }
        },
        None => Err(HydrateError::MissingField),
    }
}

impl Value {
    /// The operand that the descriptor `v` of an operand slot stands for,
    /// with the reporters that it names taken from `blocks`.
    pub fn hydrate(v: &Json, blocks: &Blocks) -> (r: Result<Value, HydrateError>)
        ensures
            result_view(r) == spec_hydrate(v@, entries_view(blocks@), blocks@.len()),
    {
        hydrate_to_depth(v, blocks, blocks.len())
    }
}

/// The operand that the descriptor `v` stands for, following names through
/// at most `depth` records.
pub fn hydrate_to_depth(v: &Json, blocks: &Blocks, depth: usize) -> (r: Result<
    Value,
    HydrateError,
>)
    ensures
        result_view(r) == spec_hydrate(v@, entries_view(blocks@), depth as nat),
    decreases depth, 0nat, 0nat,
{
    let literal_payload = match v.at(1) {
        Some(payload) => if payload.is_array() {
            Some(payload)
        } else {
            None
        },
        None => None,
    };
    match literal_payload {
        Some(payload) => literal(payload),
        None => match referenced(v, blocks) {
            Err(e) => Err(e),
            Ok(b) => if depth == 0 {
                Err(HydrateError::BadReference)
            } else {
                match build_block_expr(b, blocks, depth - 1) {
                    Ok(e) => Ok(Value::Expression(Box::new(e))),
                    Err(e) => Err(e),
                }
            },
        },
    }
}

fn input(b: &BlockInfo, slot: &str, blocks: &Blocks, depth: usize) -> (r: Result<
    Value,
    HydrateError,
>)
    ensures
        result_view(r) == spec_input(b@, slot@, entries_view(blocks@), depth as nat),
    decreases depth, 1nat, 0nat,
{
    match find(&b.inputs, slot) {
        Some(descriptor) => hydrate_to_depth(descriptor, blocks, depth),
        None => Err(HydrateError::MissingInput),
    }
}

fn operands(b: &BlockInfo, first: &str, second: &str, blocks: &Blocks, depth: usize) -> (r: Result<
    (Value, Value),
    HydrateError,
>)
    ensures
        match r {
            Ok((left, right)) => spec_operands(
                b@,
                first@,
                second@,
                entries_view(blocks@),
                depth as nat,
            ) == Ok::<(ValueView, ValueView), HydrateError>((left@, right@)),
            Err(e) => spec_operands(b@, first@, second@, entries_view(blocks@), depth as nat)
                == Err::<(ValueView, ValueView), HydrateError>(e),
        },
    decreases depth, 2nat, 0nat,
{
    match input(b, first, blocks, depth) {
        Err(e) => Err(e),
        Ok(left) => match input(b, second, blocks, depth) {
            Err(e) => Err(e),
            Ok(right) => Ok((left, right)),
        },
    }
}

fn arguments(b: &BlockInfo, slots: &Vec<String>, blocks: &Blocks, depth: usize) -> (r: Result<
    Vec<Value>,
    HydrateError,
>)
    ensures
        match r {
            Ok(values) => spec_arguments(
                b@,
                strings_view(slots@),
                entries_view(blocks@),
                depth as nat,
            ) == Ok::<Seq<ValueView>, HydrateError>(values_view(values@)),
            Err(e) => spec_arguments(b@, strings_view(slots@), entries_view(blocks@), depth as nat)
                == Err::<Seq<ValueView>, HydrateError>(e),
        },
    decreases depth, 2nat, slots.len() + 1,
{
    let ghost names = strings_view(slots@);
    let ghost dictionary = entries_view(blocks@);
    let mut values: Vec<Value> = Vec::new();
    let mut i: usize = 0;
    assert(names.take(0) =~= Seq::<Seq<char>>::empty());
    assert(values_view(values@) =~= Seq::<ValueView>::empty());
    while i < slots.len()
        invariant
            i <= slots.len(),
            names == strings_view(slots@),
            dictionary == entries_view(blocks@),
            spec_arguments(b@, names.take(i as int), dictionary, depth as nat) == Ok::<
                Seq<ValueView>,
                HydrateError,
            >(values_view(values@)),
        decreases slots.len() - i,
    {
        assert(names.take(i + 1).drop_last() =~= names.take(i as int));
        assert(names.take(i + 1).last() == slots@[i as int]@);
        match input(b, slots[i].as_str(), blocks, depth) {
            Err(e) => {
                proof {
                    lemma_arguments_fail(b@, names, i + 1, dictionary, depth as nat);
                }
                return Err(e);
            },
            Ok(value) => {
                let ghost before = values_view(values@);
                values.push(value);
                assert(values_view(values@) =~= before.push(value@));
            },
        }
        i += 1;
    }
    assert(names.take(i as int) =~= names);
    Ok(values)
}

/// The reporter that the record `b` stands for, following names through at
/// most `depth` records.
pub fn build_block_expr(b: &BlockInfo, blocks: &Blocks, depth: usize) -> (r: Result<
    BlockExpression,
    HydrateError,
>)
    ensures
        result_view(r) == spec_build_block_expr(b@, entries_view(blocks@), depth as nat),
    decreases depth, 3nat, 0nat,
{
    let opcode = b.opcode.as_str();
    if str_eq(opcode, "operator_equals") {
        match operands(b, "OPERAND1", "OPERAND2", blocks, depth) {
            Ok((left, right)) => Ok(BlockExpression::OperatorEquals { left, right }),
            Err(e) => Err(e),
        }
    } else if str_eq(opcode, "operator_gt") {
        match operands(b, "OPERAND1", "OPERAND2", blocks, depth) {
            Ok((left, right)) => Ok(BlockExpression::OperatorGT { left, right }),
            Err(e) => Err(e),
        }
    } else if str_eq(opcode, "operator_add") {
        match operands(b, "NUM1", "NUM2", blocks, depth) {
            Ok((left, right)) => Ok(BlockExpression::OperatorAdd { left, right }),
            Err(e) => Err(e),
        }
    } else if str_eq(opcode, "operator_subtract") {
        match operands(b, "NUM1", "NUM2", blocks, depth) {
            Ok((left, right)) => Ok(BlockExpression::OperatorSubtract { left, right }),
            Err(e) => Err(e),
        }
    } else if str_eq(opcode, "argument_reporter_string_number") {
        match field(b, "VALUE", 0) {
            Ok(name) => Ok(BlockExpression::ArgumentReporterStringNumber { name }),
            Err(e) => Err(e),
        }
    } else {
        Err(HydrateError::UnknownOpcode)
    }
}

fn substack(b: &BlockInfo, slot: &str, blocks: &Blocks, depth: usize) -> (r: Result<
    Block,
    HydrateError,
>)
    ensures
        result_view(r) == spec_substack(b@, slot@, entries_view(blocks@), depth as nat),
    decreases depth, 1nat, 0nat,
{
    match find(&b.inputs, slot) {
        None => Err(HydrateError::MissingInput),
        Some(descriptor) => match referenced(descriptor, blocks) {
            Err(e) => Err(e),
            Ok(first) => if depth == 0 {
                Err(HydrateError::BadReference)
            } else {
                build_block(first, blocks, depth - 1)
            },
        },
    }
}

fn next_of(next: &Option<String>, blocks: &Blocks, depth: usize) -> (r: Result<
    Option<Box<Block>>,
    HydrateError,
>)
    ensures
        match r {
            Ok(Some(block)) => spec_next(option_text(*next), entries_view(blocks@), depth as nat)
                == Ok::<Option<Box<BlockView>>, HydrateError>(Some(Box::new(block@))),
            Ok(None) => spec_next(option_text(*next), entries_view(blocks@), depth as nat) == Ok::<
                Option<Box<BlockView>>,
                HydrateError,
            >(None),
            Err(e) => spec_next(option_text(*next), entries_view(blocks@), depth as nat) == Err::<
                Option<Box<BlockView>>,
                HydrateError,
            >(e),
        },
    decreases depth, 1nat, 0nat,
{
    match next {
        None => Ok(None),
        Some(id) => match find(blocks, id.as_str()) {
            None => Err(HydrateError::BadReference),
            Some(b) => if depth == 0 {
                Err(HydrateError::BadReference)
            } else {
                match build_block(b, blocks, depth - 1) {
                    Ok(block) => Ok(Some(Box::new(block))),
                    Err(e) => Err(e),
                }
            },
        },
    }
}

/// The text of an optional string.
pub open spec fn option_text(text: Option<String>) -> Option<Seq<char>> {
    match text {
        Some(t) => Some(t@),
        None => None,
    }
}

fn build_repeat(b: &BlockInfo, blocks: &Blocks, depth: usize) -> (r: Result<BlockOp, HydrateError>)
    ensures
        result_view(r) == spec_repeat(b@, entries_view(blocks@), depth as nat),
    decreases depth, 3nat, 0nat,
{
    match input(b, "TIMES", blocks, depth) {
        Err(e) => Err(e),
        Ok(times) => match substack(b, "SUBSTACK", blocks, depth) {
            Err(e) => Err(e),
            Ok(body) => Ok(BlockOp::ControlRepeat { times, body: Box::new(body) }),
        },
    }
}

fn build_forever(b: &BlockInfo, blocks: &Blocks, depth: usize) -> (r: Result<BlockOp, HydrateError>)
    ensures
        result_view(r) == spec_forever(b@, entries_view(blocks@), depth as nat),
    decreases depth, 3nat, 0nat,
{
    match substack(b, "SUBSTACK", blocks, depth) {
        Err(e) => Err(e),
        Ok(body) => Ok(BlockOp::ControlForever(Box::new(body))),
    }
}

fn build_if_else(b: &BlockInfo, blocks: &Blocks, depth: usize) -> (r: Result<BlockOp, HydrateError>)
    ensures
        result_view(r) == spec_if_else(b@, entries_view(blocks@), depth as nat),
    decreases depth, 3nat, 0nat,
{
    match input(b, "CONDITION", blocks, depth) {
        Err(e) => Err(e),
        Ok(condition) => match substack(b, "SUBSTACK", blocks, depth) {
            Err(e) => Err(e),
            Ok(consequent) => if find(&b.inputs, "SUBSTACK2").is_none() {
                Ok(
                    BlockOp::ControlIfElse {
                        condition,
                        consequent: Box::new(consequent),
                        alternative: None,
                    },
                )
            } else {
                match substack(b, "SUBSTACK2", blocks, depth) {
                    Err(e) => Err(e),
                    Ok(alternative) => Ok(
                        BlockOp::ControlIfElse {
                            condition,
                            consequent: Box::new(consequent),
                            alternative: Some(Box::new(alternative)),
                        },
                    ),
                }
            },
        },
    }
}

fn build_stop(b: &BlockInfo) -> (r: Result<BlockOp, HydrateError>)
    ensures
        result_view(r) == spec_stop(b@),
{
    match field(b, "STOP_OPTION", 0) {
        Err(e) => Err(e),
        Ok(option) => if str_eq(option.as_str(), "all") {
            Ok(BlockOp::ControlStopAll)
        } else if str_eq(option.as_str(), "this script") {
            Ok(BlockOp::ControlStopScript)
        } else {
            Err(HydrateError::UnknownOpcode)
        },
    }
}

fn build_assignment(b: &BlockInfo, blocks: &Blocks, depth: usize) -> (r: Result<
    (String, Value),
    HydrateError,
>)
    ensures
        match r {
            Ok((id, value)) => spec_assignment(b@, entries_view(blocks@), depth as nat) == Ok::<
                (Seq<char>, ValueView),
                HydrateError,
            >((id@, value@)),
            Err(e) => spec_assignment(b@, entries_view(blocks@), depth as nat) == Err::<
                (Seq<char>, ValueView),
                HydrateError,
            >(e),
        },
    decreases depth, 3nat, 0nat,
{
    match field(b, "VARIABLE", 1) {
        Err(e) => Err(e),
        Ok(id) => match input(b, "VALUE", blocks, depth) {
            Err(e) => Err(e),
            Ok(value) => Ok((id, value)),
        },
    }
}

fn build_call(b: &BlockInfo, blocks: &Blocks, depth: usize) -> (r: Result<BlockOp, HydrateError>)
    ensures
        result_view(r) == spec_call(b@, entries_view(blocks@), depth as nat),
    decreases depth, 3nat, 0nat,
{
    match &b.mutation {
        None => Err(HydrateError::MissingField),
        Some(mutation) => match arguments(b, &mutation.argumentids, blocks, depth) {
            Err(e) => Err(e),
            Ok(args) => Ok(BlockOp::ProceduresCall { proc: mutation.proccode.clone(), args }),
        },
    }
}

fn build_op(b: &BlockInfo, blocks: &Blocks, depth: usize) -> (r: Result<BlockOp, HydrateError>)
    ensures
        result_view(r) == spec_build_op(b@, entries_view(blocks@), depth as nat),
    decreases depth, 4nat, 0nat,
{
    let opcode = b.opcode.as_str();
    if str_eq(opcode, "control_repeat") {
        build_repeat(b, blocks, depth)
    } else if str_eq(opcode, "control_forever") {
        build_forever(b, blocks, depth)
    } else if str_eq(opcode, "control_wait") {
        match input(b, "DURATION", blocks, depth) {
            Err(e) => Err(e),
            Ok(seconds) => Ok(BlockOp::ControlWait(seconds)),
        }
    } else if str_eq(opcode, "control_if_else") {
        build_if_else(b, blocks, depth)
    } else if str_eq(opcode, "control_stop") {
        build_stop(b)
    } else if str_eq(opcode, "looks_say") || str_eq(opcode, "looks_sayforsecs") {
        match input(b, "MESSAGE", blocks, depth) {
            Err(e) => Err(e),
            Ok(message) => Ok(BlockOp::LooksSay(message)),
        }
    } else if str_eq(opcode, "event_whenflagclicked") {
        Ok(BlockOp::EventWhenFlagClicked)
    } else if str_eq(opcode, "data_setvariableto") {
        match build_assignment(b, blocks, depth) {
            Err(e) => Err(e),
            Ok((id, value)) => Ok(BlockOp::DataSetVariableTo { id, value }),
        }
    } else if str_eq(opcode, "data_changevariableby") {
        match build_assignment(b, blocks, depth) {
            Err(e) => Err(e),
            Ok((id, value)) => Ok(BlockOp::DataChangeVariableBy { id, value }),
        }
    } else if str_eq(opcode, "procedures_call") {
        build_call(b, blocks, depth)
    } else {
        Err(HydrateError::UnknownOpcode)
    }
}

/// The statement chain that starts at the record `b`, following names
/// through at most `depth` further records.
pub fn build_block(b: &BlockInfo, blocks: &Blocks, depth: usize) -> (r: Result<Block, HydrateError>)
    ensures
        result_view(r) == spec_build_block(b@, entries_view(blocks@), depth as nat),
    decreases depth, 5nat, 0nat,
{
    match build_op(b, blocks, depth) {
        Err(e) => Err(e),
        Ok(op) => if str_eq(b.opcode.as_str(), "looks_sayforsecs") {
            match input(b, "SECS", blocks, depth) {
                Err(e) => Err(e),
                Ok(seconds) => match next_of(&b.next, blocks, depth) {
                    Err(e) => Err(e),
                    Ok(next) => {
                        let wait = Block { op: BlockOp::ControlWait(seconds), next };
                        assert(wait.op@ == BlockOpView::ControlWait(seconds@));
                        assert(wait@.op == wait.op@);
                        let say = Block { op, next: Some(Box::new(wait)) };
                        assert(say@ == BlockView { op: op@, next: Some(Box::new(wait@)) });
                        Ok(say)
                    },
                },
            }
        } else {
            match next_of(&b.next, blocks, depth) {
                Err(e) => Err(e),
                Ok(next) => {
                    let block = Block { op, next };
                    assert(block@.op == op@);
                    Ok(block)
                },
            }
        },
    }
}

/// What the prototype of the definition block `b` says of the procedure.
pub open spec fn spec_prototype(b: BlockInfoView, blocks: BlocksView) -> Result<
    MutationInfoView,
    HydrateError,
> {
    match lookup(b.inputs, "custom_block"@) {
        None => Err(HydrateError::MissingInput),
        Some(descriptor) => match spec_referenced(descriptor, blocks) {
            Err(e) => Err(e),
            Ok(prototype) => match prototype.mutation {
                None => Err(HydrateError::MissingField),
                Some(mutation) => Ok(mutation),
            },
        },
    }
}

/// The procedure that the definition block `b` defines: its body starts at
/// the block that follows `b`, its identifier and parameter names stand in
/// its prototype.
pub open spec fn spec_procedure(b: BlockInfoView, blocks: BlocksView) -> Result<
    ProcedureView,
    HydrateError,
> {
    match spec_next(b.next, blocks, blocks.len()) {
        Err(e) => Err(e),
        Ok(None) => Err(HydrateError::BadReference),
        Ok(Some(body)) => match spec_prototype(b, blocks) {
            Err(e) => Err(e),
            Ok(mutation) => match mutation.argumentnames {
                None => Err(HydrateError::MissingField),
                Some(arguments) => Ok(
                    ProcedureView { id: mutation.proccode, arguments, body: *body },
                ),
            },
        },
    }
}

/// Whether the record is a procedure definition.
pub open spec fn is_definition(b: BlockInfoView) -> bool {
    b.opcode == "procedures_definition"@
}

/// Whether the record starts a script: a top-level block that defines no
/// procedure.
pub open spec fn is_script(b: BlockInfoView) -> bool {
    b.top_level && !is_definition(b)
}

/// The scripts and the procedures that the first `n` entries of the
/// dictionary give, each list in the order of the entries.
pub open spec fn spec_discover(blocks: BlocksView, n: nat) -> Result<
    (Seq<BlockView>, Seq<ProcedureView>),
    HydrateError,
>
    decreases n,
{
    if n == 0 {
        Ok((Seq::empty(), Seq::empty()))
    } else {
        match spec_discover(blocks, (n - 1) as nat) {
            Err(e) => Err(e),
            Ok((scripts, procedures)) => {
                let b = blocks[n - 1].1;
                if is_definition(b) {
                    match spec_procedure(b, blocks) {
                        Err(e) => Err(e),
                        Ok(procedure) => Ok((scripts, procedures.push(procedure))),
                    }
                } else if b.top_level {
                    match spec_build_block(b, blocks, blocks.len()) {
                        Err(e) => Err(e),
                        Ok(script) => Ok((scripts.push(script), procedures)),
                    }
                } else {
                    Ok((scripts, procedures))
                }
            },
        }
    }
}

/// The typed program of a target: its variables as they are, and the
/// scripts and procedures that its block dictionary gives.
pub open spec fn spec_hydrate_target(info: TargetInfoView) -> Result<TargetView, HydrateError> {
    match spec_discover(info.blocks, info.blocks.len()) {
        Err(e) => Err(e),
        Ok((scripts, procedures)) => Ok(
            TargetView { variables: info.variables, scripts, procedures },
        ),
    }
}

/// Once one entry fails, the whole dictionary fails in the same way.
proof fn lemma_discover_fail(blocks: BlocksView, n: nat, m: nat)
    requires
        n <= m,
        spec_discover(blocks, n) is Err,
    ensures
        spec_discover(blocks, m) == spec_discover(blocks, n),
    decreases m - n,
{
    if n < m {
        lemma_discover_fail(blocks, n + 1, m);
    }
}

fn prototype<'a>(b: &BlockInfo, blocks: &'a Blocks) -> (r: Result<&'a MutationInfo, HydrateError>)
    ensures
        match r {
            Ok(m) => spec_prototype(b@, entries_view(blocks@)) == Ok::<
                MutationInfoView,
                HydrateError,
            >(m@),
            Err(e) => spec_prototype(b@, entries_view(blocks@)) == Err::<
                MutationInfoView,
                HydrateError,
            >(e),
        },
{
    match find(&b.inputs, "custom_block") {
        None => Err(HydrateError::MissingInput),
        Some(descriptor) => match referenced(descriptor, blocks) {
            Err(e) => Err(e),
            Ok(prototype) => match &prototype.mutation {
                None => Err(HydrateError::MissingField),
                Some(mutation) => Ok(mutation),
            },
        },
    }
}

fn procedure(b: &BlockInfo, blocks: &Blocks) -> (r: Result<Procedure, HydrateError>)
    ensures
        result_view(r) == spec_procedure(b@, entries_view(blocks@)),
{
    match next_of(&b.next, blocks, blocks.len()) {
        Err(e) => Err(e),
        Ok(None) => Err(HydrateError::BadReference),
        Ok(Some(body)) => match prototype(b, blocks) {
            Err(e) => Err(e),
            Ok(mutation) => match &mutation.argumentnames {
                None => Err(HydrateError::MissingField),
                Some(names) => Ok(
                    Procedure {
                        id: mutation.proccode.clone(),
                        arguments: clone_strings(names),
                        body: *body,
                    },
                ),
            },
        },
    }
}

impl Target {
    /// The typed program of a target. Each procedure definition of the
    /// block dictionary gives a procedure, each other top-level block a
    /// script, in the order in which the dictionary is walked. The
    /// variables are kept as they are.
    pub fn hydrate(i: TargetInfo) -> (r: Result<Target, HydrateError>)
        ensures
            result_view(r) == spec_hydrate_target(i@),
            r matches Ok(target) ==> target.variables == i.variables,
    {
        let ghost info = i@;
        let TargetInfo { variables, blocks, .. } = i;
        let ghost dictionary = entries_view(blocks@);
        let mut scripts: Vec<Block> = Vec::new();
        let mut procedures: Vec<Procedure> = Vec::new();
        let mut n: usize = 0;
        assert(blocks_view(scripts@) =~= Seq::<BlockView>::empty());
        assert(procedures_view(procedures@) =~= Seq::<ProcedureView>::empty());
        while n < blocks.len()
            invariant
                n <= blocks.len(),
                dictionary == entries_view(blocks@),
                info.blocks == dictionary,
                dictionary.len() == blocks@.len(),
                info == i@,
                info.variables == variable_ids(variables@),
                spec_discover(dictionary, n as nat) == Ok::<
                    (Seq<BlockView>, Seq<ProcedureView>),
                    HydrateError,
                >((blocks_view(scripts@), procedures_view(procedures@))),
            decreases blocks.len() - n,
        {
            let b = &blocks[n].1;
            assert(dictionary[n as int].1 == b@);
            if str_eq(b.opcode.as_str(), "procedures_definition") {
                match procedure(b, &blocks) {
                    Err(e) => {
                        proof {
                            assert(spec_discover(dictionary, (n + 1) as nat) == Err::<
                                (Seq<BlockView>, Seq<ProcedureView>),
                                HydrateError,
                            >(e));
                            lemma_discover_fail(dictionary, (n + 1) as nat, blocks@.len());
                        }
                        return Err(e);
                    },
                    Ok(p) => {
                        let ghost before = procedures_view(procedures@);
                        procedures.push(p);
                        assert(procedures_view(procedures@) =~= before.push(p@));
                    },
                }
            } else if b.top_level {
                match build_block(b, &blocks, blocks.len()) {
                    Err(e) => {
                        proof {
                            assert(spec_discover(dictionary, (n + 1) as nat) == Err::<
                                (Seq<BlockView>, Seq<ProcedureView>),
                                HydrateError,
                            >(e));
                            lemma_discover_fail(dictionary, (n + 1) as nat, blocks@.len());
                        }
                        return Err(e);
                    },
                    Ok(script) => {
                        let ghost before = blocks_view(scripts@);
                        scripts.push(script);
                        assert(blocks_view(scripts@) =~= before.push(script@));
                    },
                }
            }
            n += 1;
        }
        Ok(Target { variables, scripts, procedures })
    }
}

} // verus!
