//! The steps of the statements that stay in one block.

use vstd::prelude::*;
use vstd::string::StrSliceExecFns;
use vstd::string::StringExecFns;
use crate::ir::BlockStatus;
use crate::ir::DataDef;
use crate::ir::Import;
use crate::ir::Op;
use crate::ir::Type;
use crate::ir::indices_view;
use crate::lower::BlockCompiler;
use crate::lower::extends;
use crate::lower::lower_call;
use crate::lower::lower_change;
use crate::lower::lower_if_head;
use crate::lower::lower_repeat_head;
use crate::lower::lower_say;
use crate::lower::lower_set;
use crate::lower::lower_stop_all;
use crate::lower::lower_values;
use crate::lower::lower_wait;
use crate::lower::straight;
use crate::scope::Scope;
use crate::scope::ScopeView;
use crate::scope::check_value;
use crate::scope::check_values;
use crate::scope::find_first;
use crate::scope::first_index;
use crate::scope::lemma_first_index;
use crate::scratch::Value;
use crate::scratch::ValueView;
use crate::scratch::values_view;
use crate::text::decimal;
use crate::text::join;

verus! {

/// Where a list of operands passes the check, each of them does.
proof fn lemma_check_values_each(values: Seq<ValueView>, n: nat, scope: ScopeView)
    requires
        check_values(values, n, scope) is Ok,
    ensures
        forall|i: int| 0 <= i < n ==> check_value(#[trigger] values[i], scope) is Ok,
    decreases n,
{
    if n > 0 {
        lemma_check_values_each(values, (n - 1) as nat, scope);
    }
}

pub(crate) fn build_wait(seconds: &Value, scope: &Scope, c: &mut BlockCompiler)
    requires
        old(c).inv(scope@),
        old(c)@.body.state.open(),
        check_value(seconds@, scope@) is Ok,
    ensures
        final(c).inv(scope@),
        final(c)@ == lower_wait(seconds@, scope@, old(c)@),
        straight(old(c)@, final(c)@),
        final(c)@.body.state.targets == old(c)@.body.state.targets,
        final(c)@.body.state.open(),
{
    reveal(lower_wait);
    let sleep = c.f.import_func(Import::Sleep);
    let value = seconds.build_float(scope, c);
    let whole = c.f.ins(Op::FcvtToUint { value }, Type::I32);
    let mut args: Vec<usize> = Vec::new();
    args.push(whole);
    assert(indices_view(args@) =~= seq![whole as nat]);
    c.f.effect(Op::Call { func_ref: sleep, args });
}

pub(crate) fn build_stop_all(scope: &Scope, c: &mut BlockCompiler)
    requires
        old(c).inv(scope@),
        old(c)@.body.state.open(),
    ensures
        final(c).inv(scope@),
        final(c)@ == lower_stop_all(old(c)@),
        straight(old(c)@, final(c)@),
        final(c)@.body.state.targets == old(c)@.body.state.targets,
        final(c)@.body.state.filled(),
{
    reveal(lower_stop_all);
    let exit = c.f.import_func(Import::Exit);
    let detach = c.f.import_func(Import::DetachScripts);
    let none: Vec<usize> = Vec::new();
    assert(indices_view(none@) =~= Seq::<nat>::empty());
    c.f.effect(Op::Call { func_ref: detach, args: none });
    let status = c.f.ins(Op::Iconst { ty: Type::I32, imm: 0 }, Type::I32);
    let mut args: Vec<usize> = Vec::new();
    args.push(status);
    assert(indices_view(args@) =~= seq![status as nat]);
    c.f.effect(Op::Call { func_ref: exit, args });
    c.f.terminate(Op::Trap);
}

pub(crate) fn build_say_text(text: &String, scope: &Scope, c: &mut BlockCompiler)
    requires
        old(c).inv(scope@),
        old(c)@.body.state.open(),
    ensures
        final(c).inv(scope@),
        final(c)@ == lower_say(ValueView::String(text@), scope@, old(c)@),
        straight(old(c)@, final(c)@),
        final(c)@.body.state.targets == old(c)@.body.state.targets,
        final(c)@.body.state.open(),
{
    reveal(lower_say);
    let write = c.f.import_func(Import::Write);
    let fd = c.f.ins(Op::Iconst { ty: Type::I32, imm: 1 }, Type::I32);
    let mut line = text.clone();
    line.append("\n");
    let bytes = line.as_str().as_bytes_vec();
    let len = bytes.len();
    let index = c.data.len();
    let name = join("data_", decimal(index - scope.variables.len()).as_str());
    let ghost before = c@;
    c.data.push(DataDef { name, writable: false, bytes });
    assert(c@ == before.add_literal(text@, scope@)) by {
        assert(c@.data =~= before.add_literal(text@, scope@).data);
    }
    assert(c.data.len() <= usize::MAX);
    let ptr = c.f.data_addr(index);
    let size = c.f.ins(Op::Iconst { ty: Type::Pointer, imm: len as u64 }, Type::Pointer);
    let mut args: Vec<usize> = Vec::new();
    args.push(fd);
    args.push(ptr);
    args.push(size);
    assert(indices_view(args@) =~= seq![fd as nat, ptr as nat, size as nat]);
    c.f.effect(Op::Call { func_ref: write, args });
}

pub(crate) fn build_say(message: &Value, scope: &Scope, c: &mut BlockCompiler)
    requires
        old(c).inv(scope@),
        old(c)@.body.state.open(),
        message@ is String || check_value(message@, scope@) is Ok,
    ensures
        final(c).inv(scope@),
        final(c)@ == lower_say(message@, scope@, old(c)@),
        straight(old(c)@, final(c)@),
        final(c)@.body.state.targets == old(c)@.body.state.targets,
        final(c)@.body.state.open(),
{
    reveal(lower_say);
    match message {
        Value::String(text) => build_say_text(text, scope, c),
        _ => {
            let print = c.f.import_func(Import::WriteFloat);
            let value = message.build_float(scope, c);
            let mut args: Vec<usize> = Vec::new();
            args.push(value);
            assert(indices_view(args@) =~= seq![value as nat]);
            c.f.effect(Op::Call { func_ref: print, args });
        },
    }
}

pub(crate) fn build_set(id: &String, value: &Value, scope: &Scope, c: &mut BlockCompiler)
    requires
        old(c).inv(scope@),
        old(c)@.body.state.open(),
        check_value(value@, scope@) is Ok,
        first_index(scope@.variables, id@) is Some,
    ensures
        final(c).inv(scope@),
        final(c)@ == lower_set(id@, value@, scope@, old(c)@),
        straight(old(c)@, final(c)@),
        final(c)@.body.state.targets == old(c)@.body.state.targets,
        final(c)@.body.state.open(),
{
    reveal(lower_set);
    let value = value.build_float(scope, c);
    let addr = c.variable_addr(id.as_str(), scope);
    c.f.effect(Op::Store { value, addr });
}

pub(crate) fn build_change(id: &String, value: &Value, scope: &Scope, c: &mut BlockCompiler)
    requires
        old(c).inv(scope@),
        old(c)@.body.state.open(),
        check_value(value@, scope@) is Ok,
        first_index(scope@.variables, id@) is Some,
    ensures
        final(c).inv(scope@),
        final(c)@ == lower_change(id@, value@, scope@, old(c)@),
        straight(old(c)@, final(c)@),
        final(c)@.body.state.targets == old(c)@.body.state.targets,
        final(c)@.body.state.open(),
{
    reveal(lower_change);
    let addr = c.variable_addr(id.as_str(), scope);
    let held = c.f.ins(Op::Load { addr }, Type::F64);
    let by = value.build_float(scope, c);
    let ty = c.f.value_type(held);
    let sum = c.f.ins(Op::Fadd { a: held, b: by }, ty);
    let addr = c.variable_addr(id.as_str(), scope);
    c.f.effect(Op::Store { value: sum, addr });
}

pub(crate) fn build_arguments(args: &Vec<Value>, scope: &Scope, c: &mut BlockCompiler) -> (ids: Vec<usize>)
    requires
        old(c).inv(scope@),
        old(c)@.body.state.open(),
        check_values(values_view(args@), args@.len(), scope@) is Ok,
    ensures
        final(c).inv(scope@),
        lower_values(values_view(args@), args@.len(), scope@, old(c)@) == (
            final(c)@,
            indices_view(ids@),
        ),
        straight(old(c)@, final(c)@),
        final(c)@.body.state.targets == old(c)@.body.state.targets,
        final(c)@.body.state.open(),
        forall|i: int| 0 <= i < ids@.len() ==> final(c)@.body.state.has_value(ids@[i] as nat),
{
    let ghost values = values_view(args@);
    let ghost start = c@;
    proof {
        lemma_check_values_each(values, args@.len(), scope@);
    }
    let mut ids: Vec<usize> = Vec::new();
    let mut i: usize = 0;
    assert(indices_view(ids@) =~= Seq::<nat>::empty());
    while i < args.len()
        invariant
            i <= args.len(),
            values == values_view(args@),
            forall|k: int| 0 <= k < args@.len() ==> check_value(#[trigger] values[k], scope@) is Ok,
            c.inv(scope@),
            c@.body.state.open(),
            straight(start, c@),
            c@.body.state.targets == start.body.state.targets,
            lower_values(values, i as nat, scope@, start) == (c@, indices_view(ids@)),
            forall|k: int| 0 <= k < ids@.len() ==> c@.body.state.has_value(ids@[k] as nat),
        decreases args.len() - i,
    {
        assert(values[i as int] == args@[i as int]@);
        let ghost before = indices_view(ids@);
        let id = args[i].build_float(scope, c);
        ids.push(id);
        assert(indices_view(ids@) =~= before.push(id as nat));
        i += 1;
    }
    ids
}

pub(crate) fn build_call(proc: &String, args: &Vec<Value>, scope: &Scope, c: &mut BlockCompiler)
    requires
        old(c).inv(scope@),
        old(c)@.body.state.open(),
        check_values(values_view(args@), args@.len(), scope@) is Ok,
        first_index(scope@.procedures, proc@) is Some,
    ensures
        final(c).inv(scope@),
        final(c)@ == lower_call(proc@, values_view(args@), scope@, old(c)@),
        straight(old(c)@, final(c)@),
        final(c)@.body.state.targets == old(c)@.body.state.targets,
        final(c)@.body.state.open(),
{
    reveal(lower_call);
    let ids = build_arguments(args, scope, c);
    proof {
        lemma_first_index(scope@.procedures, proc@);
    }
    assert(scope.procedures.len() <= usize::MAX);
    let func = match find_first(scope.procedures, proc.as_str()) {
        Some(i) => i,
        None => 0,
    };
    let func_ref = c.f.local_func(func);
    c.f.effect(Op::Call { func_ref, args: ids });
}

pub(crate) fn build_repeat_head(times: &Value, scope: &Scope, c: &mut BlockCompiler) -> (head: usize)
    requires
        old(c).inv(scope@),
        old(c)@.body.state.open(),
        check_value(times@, scope@) is Ok,
    ensures
        final(c).inv(scope@),
        final(c)@ == lower_repeat_head(times@, scope@, old(c)@),
        head == old(c)@.body.state.status.len(),
        head + 2 < usize::MAX,
        extends(old(c)@, final(c)@),
        final(c)@.body.state.status.len() == head + 3,
        final(c)@.body.state.targets == old(c)@.body.state.targets.insert(head as nat).insert(
            (head + 2) as nat,
        ).insert((head + 1) as nat),
        final(c)@.body.state.position == Some(head as nat),
        final(c)@.body.state.status[head as int] == BlockStatus::Filled,
        final(c)@.body.state.status[head + 1] == BlockStatus::Empty,
        final(c)@.body.state.status[head + 2] == BlockStatus::Empty,
        forall|x: int|
            0 <= x < head ==> final(c)@.body.state.status[x] == if Some(x as nat) == old(
                c,
            )@.body.state.position {
                BlockStatus::Filled
            } else {
                old(c)@.body.state.status[x]
            },
{
    reveal(lower_repeat_head);
    let head = c.f.create_block();
    let body = c.f.create_block();
    let next = c.f.create_block();
    proof {
        c.f.lemma_wf();
    }
    let count = c.f.declare_var(Type::I32);
    let value = times.build_float(scope, c);
    let whole = c.f.ins(Op::FcvtToUint { value }, Type::I32);
    let one = c.f.ins(Op::Iconst { ty: Type::I32, imm: 1 }, Type::I32);
    let trips = c.f.ins(Op::Iadd { a: whole, b: one }, Type::I32);
    c.f.def_var(count, trips);
    c.f.terminate(Op::Jump { block: head });
    c.f.switch_to_block(head);
    let left = c.f.ins(Op::UseVar { var: count }, Type::I32);
    let one = c.f.ins(Op::Iconst { ty: Type::I32, imm: 1 }, Type::I32);
    let left = c.f.ins(Op::Isub { a: left, b: one }, Type::I32);
    c.f.def_var(count, left);
    c.f.terminate(Op::Brz { cond: left, zero: next, nonzero: body });
    head
}

pub(crate) fn build_if_head(condition: &Value, has_alternative: bool, scope: &Scope, c: &mut BlockCompiler)
    -> (first: usize)
    requires
        old(c).inv(scope@),
        old(c)@.body.state.open(),
        check_value(condition@, scope@) is Ok,
    ensures
        final(c).inv(scope@),
        final(c)@ == lower_if_head(condition@, has_alternative, scope@, old(c)@),
        first == old(c)@.body.state.status.len(),
        first + 2 < usize::MAX,
        extends(old(c)@, final(c)@),
        final(c)@.body.state.status.len() == first + 3,
        final(c)@.body.state.targets == old(c)@.body.state.targets.insert(
            if has_alternative {
                (first + 1) as nat
            } else {
                (first + 2) as nat
            },
        ).insert(first as nat),
        final(c)@.body.state.position == old(c)@.body.state.position,
        final(c)@.body.state.status[first as int] == BlockStatus::Empty,
        final(c)@.body.state.status[first + 1] == BlockStatus::Empty,
        final(c)@.body.state.status[first + 2] == BlockStatus::Empty,
        forall|x: int|
            0 <= x < first ==> final(c)@.body.state.status[x] == if Some(x as nat) == old(
                c,
            )@.body.state.position {
                BlockStatus::Filled
            } else {
                old(c)@.body.state.status[x]
            },
{
    reveal(lower_if_head);
    let consequent = c.f.create_block();
    let alternative = c.f.create_block();
    let next = c.f.create_block();
    proof {
        c.f.lemma_wf();
    }
    let cond = condition.build(scope, c);
    let zero = if has_alternative {
        alternative
    } else {
        next
    };
    c.f.terminate(Op::Brz { cond, zero, nonzero: consequent });
    consequent
}

} // verus!
