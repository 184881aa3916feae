//! What holds of every program that the library hydrates and compiles.

use vstd::prelude::*;
use crate::builder::Body;
use crate::compiler::assemble;
use crate::compiler::cells;
use crate::compiler::ids_of;
use crate::compiler::lower_main;
use crate::compiler::lower_procedures;
use crate::compiler::lower_scripts;
use crate::compiler::procedure_symbol;
use crate::compiler::script_symbol;
use crate::compiler::spawn_scripts;
use crate::compiler::spec_compile;
use crate::dict::lookup;
use crate::hydrate::HydrateError;
use crate::hydrate::is_definition;
use crate::hydrate::is_script;
use crate::hydrate::spec_arguments;
use crate::hydrate::spec_assignment;
use crate::hydrate::spec_build_block;
use crate::hydrate::spec_build_block_expr;
use crate::hydrate::spec_build_op;
use crate::hydrate::spec_call;
use crate::hydrate::spec_discover;
use crate::hydrate::spec_forever;
use crate::hydrate::spec_hydrate;
use crate::hydrate::spec_if_else;
use crate::hydrate::spec_input;
use crate::hydrate::spec_next;
use crate::hydrate::spec_operands;
use crate::hydrate::spec_referenced;
use crate::hydrate::spec_repeat;
use crate::hydrate::spec_substack;
use crate::ir::DataDefView;
use crate::ir::OpView;
use crate::json::JsonView;
use crate::lower::Lowering;
use crate::lower::grown;
use crate::lower::lower_block;
use crate::lower::lower_call;
use crate::lower::lower_change;
use crate::lower::lower_float;
use crate::lower::lower_if_head;
use crate::lower::lower_op;
use crate::lower::lower_repeat_head;
use crate::lower::lower_say;
use crate::lower::lower_set;
use crate::lower::lower_stop_all;
use crate::lower::lower_value;
use crate::lower::lower_values;
use crate::lower::lower_wait;
use crate::project::BlockInfoView;
use crate::project::BlocksView;
use crate::scope::ScopeView;
use crate::scope::check_callee;
use crate::scope::distinct;
use crate::scope::first_index;
use crate::scope::lemma_first_index;
use crate::scratch::BlockExpressionView;
use crate::scratch::BlockOpView;
use crate::scratch::BlockView;
use crate::scratch::ProcedureView;
use crate::scratch::ValueView;

verus! {

/// Every variable has exactly one cell. Where the data objects of a module
/// are the cells of distinct variables followed by read-only objects, the
/// one writable object under the identifier of variable `i` is object `i`,
/// and it holds eight bytes.
pub proof fn law_one_cell_per_variable(variables: Seq<Seq<char>>, data: Seq<DataDefView>, i: int)
    requires
        distinct(variables),
        grown(cells(variables), data),
        0 <= i < variables.len(),
    ensures
        data[i].name == variables[i],
        data[i].writable,
        data[i].bytes.len() == 8,
        forall|j: int|
            0 <= j < data.len() && (#[trigger] data[j]).writable && data[j].name == variables[i]
                ==> j == i,
{
    assert(data[i] == cells(variables)[i]);
    assert forall|j: int|
        0 <= j < data.len() && (#[trigger] data[j]).writable && data[j].name
            == variables[i] implies j == i by {
        if j < variables.len() {
            assert(data[j] == cells(variables)[j]);
        }
    }
}

/// The number of entries among the first `n` that start a script.
pub open spec fn count_scripts(blocks: BlocksView, n: nat) -> nat
    decreases n,
{
    if n == 0 {
        0
    } else {
        count_scripts(blocks, (n - 1) as nat) + if is_script(blocks[n - 1].1) {
            1nat
        } else {
            0nat
        }
    }
}

/// The number of entries among the first `n` that define a procedure.
pub open spec fn count_definitions(blocks: BlocksView, n: nat) -> nat
    decreases n,
{
    if n == 0 {
        0
    } else {
        count_definitions(blocks, (n - 1) as nat) + if is_definition(blocks[n - 1].1) {
            1nat
        } else {
            0nat
        }
    }
}

/// Every top-level block that defines no procedure gives exactly one
/// script, and every procedure definition exactly one procedure: where a
/// dictionary is hydrated, there are as many scripts as such blocks and as
/// many procedures as definitions.
pub proof fn law_one_script_per_top_level_block(blocks: BlocksView, n: nat)
    requires
        n <= blocks.len(),
        spec_discover(blocks, n) is Ok,
    ensures
        spec_discover(blocks, n)->Ok_0.0.len() == count_scripts(blocks, n),
        spec_discover(blocks, n)->Ok_0.1.len() == count_definitions(blocks, n),
    decreases n,
{
    if n > 0 {
        law_one_script_per_top_level_block(blocks, (n - 1) as nat);
    }
}

/// The functions of the module that the steps refer to, in the order of
/// the steps.
pub open spec fn referred(ops: Seq<OpView>) -> Seq<nat>
    decreases ops.len(),
{
    if ops.len() == 0 {
        Seq::empty()
    } else {
        match ops.last() {
            OpView::LocalFunc { func } => referred(ops.drop_last()).push(func),
            _ => referred(ops.drop_last()),
        }
    }
}

proof fn lemma_referred_push(ops: Seq<OpView>, op: OpView)
    ensures
        referred(ops.push(op)) == match op {
            OpView::LocalFunc { func } => referred(ops).push(func),
            _ => referred(ops),
        },
{
    assert(ops.push(op).drop_last() =~= ops);
}

proof fn lemma_spawned(body: Body, first: nat, n: nat)
    ensures
        referred(spawn_scripts(body, 0, first, n).ops) == referred(body.ops) + Seq::new(
            n,
            |j: int| (first + j) as nat,
        ),
    decreases n,
{
    if n == 0 {
        assert(referred(body.ops) + Seq::new(0, |j: int| (first + j) as nat) =~= referred(
            body.ops,
        ));
    } else {
        let before = spawn_scripts(body, 0, first, (n - 1) as nat);
        lemma_spawned(body, first, (n - 1) as nat);
        let b1 = before.emit(OpView::LocalFunc { func: (first + n - 1) as nat });
        let b2 = b1.emit(OpView::FuncAddr { func_ref: (b1.state.func_refs - 1) as nat });
        let call = OpView::Call { func_ref: 0, args: seq![b2.last_value()] };
        lemma_referred_push(before.ops, OpView::LocalFunc { func: (first + n - 1) as nat });
        lemma_referred_push(
            b1.ops,
            OpView::FuncAddr { func_ref: (b1.state.func_refs - 1) as nat },
        );
        lemma_referred_push(b2.ops, call);
        assert(referred(body.ops) + Seq::new(n, |j: int| (first + j) as nat) =~= (referred(
            body.ops,
        ) + Seq::new((n - 1) as nat, |j: int| (first + j) as nat)).push((first + n - 1) as nat));
    }
}

/// `main` hands each script to the runtime exactly once, in the order of
/// the scripts: the functions that its body refers to are those of
/// script 0, script 1, and so on, each once.
pub proof fn law_main_spawns_each_script_once(procedures: nat, scripts: nat)
    ensures
        referred(lower_main(procedures, scripts).ops) == Seq::new(
            scripts,
            |j: int| (procedures + j) as nat,
        ),
{
    let b0 = Body::start(0);
    let b1 = b0.emit(OpView::CreateBlock);
    let b2 = b1.emit(OpView::SwitchToBlock { block: 0 });
    let b3 = b2.emit(OpView::ImportFunc { import: crate::ir::Import::SpawnScript });
    lemma_referred_push(b0.ops, OpView::CreateBlock);
    lemma_referred_push(b1.ops, OpView::SwitchToBlock { block: 0 });
    lemma_referred_push(b2.ops, OpView::ImportFunc { import: crate::ir::Import::SpawnScript });
    assert(referred(b3.ops) =~= Seq::<nat>::empty());
    lemma_spawned(b3, procedures, scripts);
    let b4 = spawn_scripts(b3, 0, procedures, scripts);
    let b5 = b4.emit(OpView::ImportFunc { import: crate::ir::Import::JoinScripts });
    let call = OpView::Call { func_ref: (b5.state.func_refs - 1) as nat, args: seq![] };
    let b6 = b5.emit(call);
    lemma_referred_push(b4.ops, OpView::ImportFunc { import: crate::ir::Import::JoinScripts });
    lemma_referred_push(b5.ops, call);
    lemma_referred_push(b6.ops, OpView::Return);
    assert(referred(b3.ops) + Seq::new(scripts, |j: int| (procedures + j) as nat) =~= Seq::new(
        scripts,
        |j: int| (procedures + j) as nat,
    ));
}

/// The functions of the procedures: as many as procedures, each under its
/// procedure's symbol, local, with its procedure's parameters.
pub proof fn lemma_procedure_functions(
    variables: Seq<Seq<char>>,
    procedures: Seq<ProcedureView>,
    n: nat,
)
    requires
        n <= procedures.len(),
    ensures
        lower_procedures(variables, procedures, n).0.len() == n,
        forall|k: int|
            0 <= k < n ==> {
                let f = #[trigger] lower_procedures(variables, procedures, n).0[k];
                &&& f.name == procedure_symbol(procedures[k].id)
                &&& !f.export
                &&& f.params == procedures[k].arguments.len()
            },
    decreases n,
{
    if n > 0 {
        lemma_procedure_functions(variables, procedures, (n - 1) as nat);
        let before = lower_procedures(variables, procedures, (n - 1) as nat).0;
        let after = lower_procedures(variables, procedures, n).0;
        assert forall|k: int| 0 <= k < n implies {
            let f = #[trigger] after[k];
            &&& f.name == procedure_symbol(procedures[k].id)
            &&& !f.export
            &&& f.params == procedures[k].arguments.len()
        } by {
            if k < n - 1 {
                assert(after[k] == before[k]);
            }
        }
    }
}

/// The functions of the procedures and the scripts: the procedures'
/// first, then one for each script, under the script's symbol, local,
/// without parameters.
pub proof fn lemma_script_functions(
    variables: Seq<Seq<char>>,
    procedures: Seq<ProcedureView>,
    scripts: Seq<BlockView>,
    n: nat,
)
    requires
        n <= scripts.len(),
    ensures
        lower_scripts(variables, procedures, scripts, n).0.len() == procedures.len() + n,
        forall|k: int|
            0 <= k < procedures.len() ==> {
                let f = #[trigger] lower_scripts(variables, procedures, scripts, n).0[k];
                &&& f.name == procedure_symbol(procedures[k].id)
                &&& !f.export
                &&& f.params == procedures[k].arguments.len()
            },
        forall|k: int|
            procedures.len() <= k < procedures.len() + n ==> {
                let f = #[trigger] lower_scripts(variables, procedures, scripts, n).0[k];
                &&& f.name == script_symbol((k - procedures.len()) as nat)
                &&& !f.export
                &&& f.params == 0
            },
    decreases n,
{
    if n == 0 {
        lemma_procedure_functions(variables, procedures, procedures.len());
    } else {
        lemma_script_functions(variables, procedures, scripts, (n - 1) as nat);
        let before = lower_scripts(variables, procedures, scripts, (n - 1) as nat).0;
        let after = lower_scripts(variables, procedures, scripts, n).0;
        assert forall|k: int| 0 <= k < procedures.len() implies {
            let f = #[trigger] after[k];
            &&& f.name == procedure_symbol(procedures[k].id)
            &&& !f.export
            &&& f.params == procedures[k].arguments.len()
        } by {
            assert(after[k] == before[k]);
        }
        assert forall|k: int| procedures.len() <= k < procedures.len() + n implies {
            let f = #[trigger] after[k];
            &&& f.name == script_symbol((k - procedures.len()) as nat)
            &&& !f.export
            &&& f.params == 0
        } by {
            if k < procedures.len() + n - 1 {
                assert(after[k] == before[k]);
            }
        }
    }
}

/// The symbols of two procedures are the same only where their
/// identifiers are.
pub proof fn lemma_procedure_symbol_injective(a: Seq<char>, b: Seq<char>)
    requires
        procedure_symbol(a) == procedure_symbol(b),
    ensures
        a == b,
{
    let prefix = "proc_"@;
    assert((prefix + a).skip(prefix.len() as int) =~= a);
    assert((prefix + b).skip(prefix.len() as int) =~= b);
}

/// No procedure's symbol is a script's symbol or `main`.
pub proof fn lemma_procedure_symbol_apart(id: Seq<char>, index: nat)
    ensures
        procedure_symbol(id) != script_symbol(index),
        procedure_symbol(id) != "main"@,
{
    reveal_strlit("proc_");
    reveal_strlit("script_");
    reveal_strlit("main");
    assert(procedure_symbol(id)[0] == 'p');
    assert(script_symbol(index)[0] == 's');
    assert("main"@[0] == 'm');
}

/// Every procedure's identifier appears exactly once as a local function
/// symbol: in the module of a program that compiles, function `i` is
/// procedure `i`, and no other function has its symbol.
pub proof fn law_one_function_per_procedure(
    variables: Seq<Seq<char>>,
    procedures: Seq<ProcedureView>,
    scripts: Seq<BlockView>,
    i: int,
)
    requires
        spec_compile(variables, procedures, scripts) is Ok,
        0 <= i < procedures.len(),
    ensures
        ({
            let m = spec_compile(variables, procedures, scripts)->Ok_0;
            &&& m.functions.len() == procedures.len() + scripts.len() + 1
            &&& m.functions[i].name == procedure_symbol(procedures[i].id)
            &&& !m.functions[i].export
            &&& m.functions[i].params == procedures[i].arguments.len()
            &&& forall|k: int|
                0 <= k < m.functions.len() && (#[trigger] m.functions[k]).name == procedure_symbol(
                    procedures[i].id,
                ) ==> k == i
        }),
{
    let m = spec_compile(variables, procedures, scripts)->Ok_0;
    assert(m == assemble(variables, procedures, scripts));
    lemma_script_functions(variables, procedures, scripts, scripts.len());
    let listed = lower_scripts(variables, procedures, scripts, scripts.len()).0;
    let last = procedures.len() + scripts.len();
    assert(m.functions[i] == listed[i]);
    assert forall|k: int|
        0 <= k < m.functions.len() && (#[trigger] m.functions[k]).name == procedure_symbol(
            procedures[i].id,
        ) implies k == i by {
        if k < procedures.len() {
            assert(m.functions[k] == listed[k]);
            lemma_procedure_symbol_injective(procedures[k].id, procedures[i].id);
            assert(ids_of(procedures)[k] == ids_of(procedures)[i]);
        } else if k < last {
            assert(m.functions[k] == listed[k]);
            lemma_procedure_symbol_apart(procedures[i].id, (k - procedures.len()) as nat);
        } else {
            lemma_procedure_symbol_apart(procedures[i].id, 0);
        }
    }
}

/// Every call resolves to the function of one procedure: a call that
/// passes the check names exactly one procedure of the scope, and the
/// steps of the call refer to the function with that procedure's number.
pub proof fn law_call_resolves(
    proc: Seq<char>,
    args: Seq<ValueView>,
    scope: ScopeView,
    s: Lowering,
)
    requires
        check_callee(proc, args.len(), scope) is Ok,
    ensures
        first_index(scope.procedures, proc) is Some,
        ({
            let i = first_index(scope.procedures, proc)->Some_0;
            &&& i < scope.procedures.len()
            &&& scope.procedures[i as int] == proc
            &&& scope.arities[i as int] == args.len()
            &&& lower_call(proc, args, scope, s).body.ops.drop_last().last() == (OpView::LocalFunc {
                func: i,
            })
        }),
{
    reveal(lower_call);
    lemma_first_index(scope.procedures, proc);
    let (s1, ids) = lower_values(args, args.len(), scope, s);
    let i = first_index(scope.procedures, proc)->Some_0;
    let s2 = s1.emit(OpView::LocalFunc { func: i });
    let s3 = s2.emit(OpView::Call { func_ref: s2.last_func_ref(), args: ids });
    assert(s3.body.ops.drop_last() =~= s2.body.ops);
}

/// A `looks_sayforsecs` is a say followed by a wait, with what followed
/// the block after the wait: where the block hydrates, it gives the say of
/// its `MESSAGE`, then the wait of its `SECS`, then the chain of its
/// successor.
pub proof fn law_say_for_seconds(b: BlockInfoView, blocks: BlocksView, depth: nat)
    requires
        b.opcode == "looks_sayforsecs"@,
        spec_build_block(b, blocks, depth) is Ok,
    ensures
        spec_input(b, "MESSAGE"@, blocks, depth) is Ok,
        spec_input(b, "SECS"@, blocks, depth) is Ok,
        spec_next(b.next, blocks, depth) is Ok,
        spec_build_block(b, blocks, depth) == Ok::<BlockView, HydrateError>(
            BlockView {
                op: BlockOpView::LooksSay(spec_input(b, "MESSAGE"@, blocks, depth)->Ok_0),
                next: Some(
                    Box::new(
                        BlockView {
                            op: BlockOpView::ControlWait(
                                spec_input(b, "SECS"@, blocks, depth)->Ok_0,
                            ),
                            next: spec_next(b.next, blocks, depth)->Ok_0,
                        },
                    ),
                ),
            },
        ),
{
    reveal_strlit("looks_sayforsecs");
    reveal_strlit("control_repeat");
    reveal_strlit("control_forever");
    reveal_strlit("control_wait");
    reveal_strlit("control_if_else");
    reveal_strlit("control_stop");
    reveal_strlit("looks_say");
    assert("looks_sayforsecs"@.len() == 16);
    assert(b.opcode != "control_repeat"@);
    assert(b.opcode != "control_forever"@);
    assert(b.opcode != "control_wait"@);
    assert(b.opcode != "control_if_else"@);
    assert(b.opcode != "control_stop"@);
    assert(spec_build_op(b, blocks, depth) is Ok);
}

/// Following names deeper never changes an operand that was reached.
pub proof fn lemma_hydrate_deeper(descriptor: JsonView, blocks: BlocksView, depth: nat)
    requires
        spec_hydrate(descriptor, blocks, depth) is Ok,
    ensures
        spec_hydrate(descriptor, blocks, depth + 1) == spec_hydrate(descriptor, blocks, depth),
    decreases depth, 0nat, 0nat,
{
    if !(descriptor.at(1) is Array) {
        let b = spec_referenced(descriptor, blocks)->Ok_0;
        lemma_build_block_expr_deeper(b, blocks, (depth - 1) as nat);
    }
}

/// Following names deeper never changes the operand of a slot that was
/// reached.
pub proof fn lemma_input_deeper(b: BlockInfoView, slot: Seq<char>, blocks: BlocksView, depth: nat)
    requires
        spec_input(b, slot, blocks, depth) is Ok,
    ensures
        spec_input(b, slot, blocks, depth + 1) == spec_input(b, slot, blocks, depth),
    decreases depth, 1nat, 0nat,
{
    lemma_hydrate_deeper(lookup(b.inputs, slot)->Some_0, blocks, depth);
}

proof fn lemma_operands_deeper(
    b: BlockInfoView,
    first: Seq<char>,
    second: Seq<char>,
    blocks: BlocksView,
    depth: nat,
)
    requires
        spec_operands(b, first, second, blocks, depth) is Ok,
    ensures
        spec_operands(b, first, second, blocks, depth + 1) == spec_operands(
            b,
            first,
            second,
            blocks,
            depth,
        ),
    decreases depth, 2nat, 0nat,
{
    lemma_input_deeper(b, first, blocks, depth);
    lemma_input_deeper(b, second, blocks, depth);
}

proof fn lemma_arguments_deeper(
    b: BlockInfoView,
    slots: Seq<Seq<char>>,
    blocks: BlocksView,
    depth: nat,
)
    requires
        spec_arguments(b, slots, blocks, depth) is Ok,
    ensures
        spec_arguments(b, slots, blocks, depth + 1) == spec_arguments(b, slots, blocks, depth),
    decreases depth, 2nat, slots.len(),
{
    if slots.len() > 0 {
        lemma_arguments_deeper(b, slots.drop_last(), blocks, depth);
        lemma_input_deeper(b, slots.last(), blocks, depth);
    }
}

proof fn lemma_build_block_expr_deeper(b: BlockInfoView, blocks: BlocksView, depth: nat)
    requires
        spec_build_block_expr(b, blocks, depth) is Ok,
    ensures
        spec_build_block_expr(b, blocks, depth + 1) == spec_build_block_expr(b, blocks, depth),
    decreases depth, 3nat, 0nat,
{
    if b.opcode == "operator_equals"@ || b.opcode == "operator_gt"@ {
        lemma_operands_deeper(b, "OPERAND1"@, "OPERAND2"@, blocks, depth);
    } else if b.opcode == "operator_add"@ || b.opcode == "operator_subtract"@ {
        lemma_operands_deeper(b, "NUM1"@, "NUM2"@, blocks, depth);
    }
}

proof fn lemma_substack_deeper(b: BlockInfoView, slot: Seq<char>, blocks: BlocksView, depth: nat)
    requires
        spec_substack(b, slot, blocks, depth) is Ok,
    ensures
        spec_substack(b, slot, blocks, depth + 1) == spec_substack(b, slot, blocks, depth),
    decreases depth, 1nat, 0nat,
{
    let first = spec_referenced(lookup(b.inputs, slot)->Some_0, blocks)->Ok_0;
    lemma_build_block_deeper(first, blocks, (depth - 1) as nat);
}

proof fn lemma_next_deeper(next: Option<Seq<char>>, blocks: BlocksView, depth: nat)
    requires
        spec_next(next, blocks, depth) is Ok,
    ensures
        spec_next(next, blocks, depth + 1) == spec_next(next, blocks, depth),
    decreases depth, 1nat, 0nat,
{
    if next is Some {
        lemma_build_block_deeper(lookup(blocks, next->Some_0)->Some_0, blocks, (depth - 1) as nat);
    }
}

proof fn lemma_repeat_deeper(b: BlockInfoView, blocks: BlocksView, depth: nat)
    requires
        spec_repeat(b, blocks, depth) is Ok,
    ensures
        spec_repeat(b, blocks, depth + 1) == spec_repeat(b, blocks, depth),
    decreases depth, 3nat, 0nat,
{
    lemma_input_deeper(b, "TIMES"@, blocks, depth);
    lemma_substack_deeper(b, "SUBSTACK"@, blocks, depth);
}

proof fn lemma_forever_deeper(b: BlockInfoView, blocks: BlocksView, depth: nat)
    requires
        spec_forever(b, blocks, depth) is Ok,
    ensures
        spec_forever(b, blocks, depth + 1) == spec_forever(b, blocks, depth),
    decreases depth, 3nat, 0nat,
{
    lemma_substack_deeper(b, "SUBSTACK"@, blocks, depth);
}

proof fn lemma_if_else_deeper(b: BlockInfoView, blocks: BlocksView, depth: nat)
    requires
        spec_if_else(b, blocks, depth) is Ok,
    ensures
        spec_if_else(b, blocks, depth + 1) == spec_if_else(b, blocks, depth),
    decreases depth, 3nat, 0nat,
{
    lemma_input_deeper(b, "CONDITION"@, blocks, depth);
    lemma_substack_deeper(b, "SUBSTACK"@, blocks, depth);
    if lookup(b.inputs, "SUBSTACK2"@) is Some {
        lemma_substack_deeper(b, "SUBSTACK2"@, blocks, depth);
    }
}

proof fn lemma_assignment_deeper(b: BlockInfoView, blocks: BlocksView, depth: nat)
    requires
        spec_assignment(b, blocks, depth) is Ok,
    ensures
        spec_assignment(b, blocks, depth + 1) == spec_assignment(b, blocks, depth),
    decreases depth, 3nat, 0nat,
{
    lemma_input_deeper(b, "VALUE"@, blocks, depth);
}

proof fn lemma_call_deeper(b: BlockInfoView, blocks: BlocksView, depth: nat)
    requires
        spec_call(b, blocks, depth) is Ok,
    ensures
        spec_call(b, blocks, depth + 1) == spec_call(b, blocks, depth),
    decreases depth, 3nat, 0nat,
{
    lemma_arguments_deeper(b, b.mutation->Some_0.argumentids, blocks, depth);
}

proof fn lemma_build_op_deeper(b: BlockInfoView, blocks: BlocksView, depth: nat)
    requires
        spec_build_op(b, blocks, depth) is Ok,
    ensures
        spec_build_op(b, blocks, depth + 1) == spec_build_op(b, blocks, depth),
    decreases depth, 4nat, 0nat,
{
    if b.opcode == "control_repeat"@ {
        lemma_repeat_deeper(b, blocks, depth);
    } else if b.opcode == "control_forever"@ {
        lemma_forever_deeper(b, blocks, depth);
    } else if b.opcode == "control_wait"@ {
        lemma_input_deeper(b, "DURATION"@, blocks, depth);
    } else if b.opcode == "control_if_else"@ {
        lemma_if_else_deeper(b, blocks, depth);
    } else if b.opcode == "control_stop"@ {
    } else if b.opcode == "looks_say"@ || b.opcode == "looks_sayforsecs"@ {
        lemma_input_deeper(b, "MESSAGE"@, blocks, depth);
    } else if b.opcode == "event_whenflagclicked"@ {
    } else if b.opcode == "data_setvariableto"@ || b.opcode == "data_changevariableby"@ {
        lemma_assignment_deeper(b, blocks, depth);
    } else if b.opcode == "procedures_call"@ {
        lemma_call_deeper(b, blocks, depth);
    }
}

/// Following names deeper never changes a statement chain that was
/// reached: what hydrates within some depth hydrates to the same chain
/// within any greater depth.
pub proof fn lemma_build_block_deeper(b: BlockInfoView, blocks: BlocksView, depth: nat)
    requires
        spec_build_block(b, blocks, depth) is Ok,
    ensures
        spec_build_block(b, blocks, depth + 1) == spec_build_block(b, blocks, depth),
    decreases depth, 5nat, 0nat,
{
    lemma_build_op_deeper(b, blocks, depth);
    if b.opcode == "looks_sayforsecs"@ {
        lemma_input_deeper(b, "SECS"@, blocks, depth);
    }
    lemma_next_deeper(b.next, blocks, depth);
}

/// A `looks_sayforsecs` is equivalent to a `looks_say` followed by a
/// `control_wait`, with what followed the block after the wait. Where a
/// `looks_sayforsecs` block hydrates, a `looks_say` block with the same
/// `MESSAGE`, followed by a `control_wait` block whose `DURATION` is the
/// `SECS` and whose successor is the block's successor, hydrates to the
/// same chain, one block deeper.
pub proof fn law_say_for_seconds_is_say_then_wait(
    combined: BlockInfoView,
    say: BlockInfoView,
    wait_id: Seq<char>,
    wait: BlockInfoView,
    blocks: BlocksView,
    depth: nat,
)
    requires
        combined.opcode == "looks_sayforsecs"@,
        say.opcode == "looks_say"@,
        wait.opcode == "control_wait"@,
        lookup(say.inputs, "MESSAGE"@) == lookup(combined.inputs, "MESSAGE"@),
        say.next == Some(wait_id),
        lookup(blocks, wait_id) == Some(wait),
        lookup(wait.inputs, "DURATION"@) == lookup(combined.inputs, "SECS"@),
        wait.next == combined.next,
        spec_build_block(combined, blocks, depth) is Ok,
    ensures
        spec_build_block(say, blocks, depth + 1) == spec_build_block(combined, blocks, depth),
{
    law_say_for_seconds(combined, blocks, depth);
    reveal_strlit("looks_sayforsecs");
    reveal_strlit("looks_say");
    reveal_strlit("control_repeat");
    reveal_strlit("control_forever");
    reveal_strlit("control_wait");
    reveal_strlit("control_if_else");
    reveal_strlit("control_stop");
    assert("looks_say"@.len() == 9);
    assert("control_wait"@.len() == 12);
    assert(say.opcode != "looks_sayforsecs"@);
    assert(say.opcode != "control_repeat"@);
    assert(say.opcode != "control_forever"@);
    assert(say.opcode != "control_wait"@);
    assert(say.opcode != "control_if_else"@);
    assert(say.opcode != "control_stop"@);
    assert(wait.opcode != "control_repeat"@);
    assert(wait.opcode != "control_forever"@);
    assert(wait.opcode != "looks_sayforsecs"@);
    // The say evaluates its message one block deeper than the combined block does.
    lemma_input_deeper(combined, "MESSAGE"@, blocks, depth);
    assert(spec_input(say, "MESSAGE"@, blocks, depth + 1) == spec_input(
        combined,
        "MESSAGE"@,
        blocks,
        depth,
    ));
    // The wait stands at the depth of the combined block.
    assert(spec_input(wait, "DURATION"@, blocks, depth) == spec_input(
        combined,
        "SECS"@,
        blocks,
        depth,
    ));
    assert(spec_build_op(wait, blocks, depth) is Ok);
    assert(spec_build_block(wait, blocks, depth) is Ok);
    assert(spec_next(say.next, blocks, depth + 1) is Ok);
}

/// Whether `after` has the blocks of `before` and appends to the same
/// block.
pub open spec fn same_place(before: Lowering, after: Lowering) -> bool {
    &&& after.body.state.position == before.body.state.position
    &&& after.body.state.status.len() == before.body.state.status.len()
    &&& after.ends == before.ends
}

/// Whether there is a block that is appended to.
pub open spec fn placed(s: Lowering) -> bool {
    match s.body.state.position {
        Some(p) => s.body.state.has_block(p),
        None => false,
    }
}

/// A step that neither creates a block nor switches to one stays in its
/// block.
pub proof fn lemma_emit_stays(s: Lowering, op: OpView)
    requires
        !(op is CreateBlock),
        !(op is SwitchToBlock),
    ensures
        same_place(s, s.emit(op)),
{
}

/// The steps of an operand create no block and stay in their block.
pub proof fn lemma_value_stays(v: ValueView, scope: ScopeView, s: Lowering)
    ensures
        same_place(s, lower_value(v, scope, s)),
        same_place(s, lower_float(v, scope, s)),
    decreases v,
{
    match v {
        ValueView::Number(text) => {
            lemma_emit_stays(s, OpView::Number { text });
        },
        ValueView::String(text) => {
            lemma_emit_stays(s, OpView::Text { text });
        },
        ValueView::Load(id) => {
            let addr = OpView::DataAddr { data: crate::lower::place(first_index(scope.variables, id)) };
            lemma_emit_stays(s, addr);
            lemma_emit_stays(s.emit(addr), OpView::Load { addr: s.emit(addr).last_value() });
        },
        ValueView::Expression(e) => match *e {
            BlockExpressionView::OperatorEquals { left, right } => {
                let s1 = lower_float(left, scope, s);
                let s2 = lower_float(right, scope, s1);
                lemma_value_stays(left, scope, s);
                lemma_value_stays(right, scope, s1);
                lemma_emit_stays(s2, OpView::FloatEq { a: s1.last_value(), b: s2.last_value() });
            },
            BlockExpressionView::OperatorGT { left, right } => {
                let s1 = lower_float(left, scope, s);
                let s2 = lower_float(right, scope, s1);
                lemma_value_stays(left, scope, s);
                lemma_value_stays(right, scope, s1);
                lemma_emit_stays(s2, OpView::FloatGt { a: s1.last_value(), b: s2.last_value() });
            },
            BlockExpressionView::OperatorAdd { left, right } => {
                let s1 = lower_float(left, scope, s);
                let s2 = lower_float(right, scope, s1);
                lemma_value_stays(left, scope, s);
                lemma_value_stays(right, scope, s1);
                lemma_emit_stays(s2, OpView::Fadd { a: s1.last_value(), b: s2.last_value() });
            },
            BlockExpressionView::OperatorSubtract { left, right } => {
                let s1 = lower_float(left, scope, s);
                let s2 = lower_float(right, scope, s1);
                lemma_value_stays(left, scope, s);
                lemma_value_stays(right, scope, s1);
                lemma_emit_stays(s2, OpView::Fsub { a: s1.last_value(), b: s2.last_value() });
            },
            BlockExpressionView::ArgumentReporterStringNumber { name } => {
                lemma_emit_stays(
                    s,
                    OpView::UseVar {
                        var: crate::lower::place(crate::scope::last_index(scope.arguments, name)),
                    },
                );
            },
        },
    }
    let s1 = lower_value(v, scope, s);
    lemma_emit_stays(s1, OpView::BoolToFloat { value: s1.last_value() });
}

/// The steps of a list of operands create no block and stay in their
/// block.
pub proof fn lemma_values_stay(values: Seq<ValueView>, n: nat, scope: ScopeView, s: Lowering)
    ensures
        same_place(s, lower_values(values, n, scope, s).0),
    decreases n,
{
    if n > 0 {
        lemma_values_stay(values, (n - 1) as nat, scope, s);
        lemma_value_stays(values[n - 1], scope, lower_values(values, (n - 1) as nat, scope, s).0);
    }
}

/// The steps of a statement other than a loop or a branch create no block
/// and stay in their block.
pub proof fn lemma_statement_stays(b: BlockView, scope: ScopeView, s: Lowering, block: nat)
    requires
        !(b.op is ControlRepeat),
        !(b.op is ControlForever),
        !(b.op is ControlIfElse),
    ensures
        same_place(s, lower_op(b, scope, s, block)),
{
    match b.op {
        BlockOpView::ControlWait(seconds) => {
            reveal(lower_wait);
            lemma_value_stays(
                seconds,
                scope,
                s.emit(OpView::ImportFunc { import: crate::ir::Import::Sleep }),
            );
        },
        BlockOpView::ControlStopAll => {
            reveal(lower_stop_all);
        },
        BlockOpView::LooksSay(message) => {
            reveal(lower_say);
            if !(message is String) {
                lemma_value_stays(
                    message,
                    scope,
                    s.emit(OpView::ImportFunc { import: crate::ir::Import::WriteFloat }),
                );
            }
        },
        BlockOpView::DataSetVariableTo { id, value } => {
            reveal(lower_set);
            lemma_value_stays(value, scope, s);
        },
        BlockOpView::DataChangeVariableBy { id, value } => {
            reveal(lower_change);
            let s1 = s.variable_addr(id, scope);
            let s2 = s1.emit(OpView::Load { addr: s1.last_value() });
            lemma_value_stays(value, scope, s2);
        },
        BlockOpView::ProceduresCall { proc, args } => {
            reveal(lower_call);
            lemma_values_stay(args, args.len(), scope, s);
        },
        _ => {},
    }
}

/// The head of a repeat creates three blocks and leaves the lowering in
/// the first of them.
pub proof fn lemma_repeat_head_place(times: ValueView, scope: ScopeView, s: Lowering)
    ensures
        ({
            let after = lower_repeat_head(times, scope, s);
            &&& after.body.state.status.len() == s.body.state.status.len() + 3
            &&& after.body.state.position == Some(s.body.state.status.len())
            &&& after.ends == s.ends
        }),
{
    reveal(lower_repeat_head);
    let s1 = s.emit(OpView::CreateBlock).emit(OpView::CreateBlock).emit(OpView::CreateBlock).emit(
        OpView::DeclareVar { ty: crate::ir::Type::I32 },
    );
    lemma_value_stays(times, scope, s1);
}

/// The head of an if creates three blocks and stays in its block.
pub proof fn lemma_if_head_place(
    condition: ValueView,
    has_alternative: bool,
    scope: ScopeView,
    s: Lowering,
)
    ensures
        ({
            let after = lower_if_head(condition, has_alternative, scope, s);
            &&& after.body.state.status.len() == s.body.state.status.len() + 3
            &&& after.body.state.position == s.body.state.position
            &&& after.ends == s.ends
        }),
{
    reveal(lower_if_head);
    let s1 = s.emit(OpView::CreateBlock).emit(OpView::CreateBlock).emit(OpView::CreateBlock);
    lemma_value_stays(condition, scope, s1);
}

/// After the steps of a statement there is a block that is appended to,
/// and no block is lost; after a forever, that block has its terminator.
pub proof fn lemma_op_placed(b: BlockView, scope: ScopeView, s: Lowering, block: nat)
    requires
        s.body.state.position == Some(block),
        s.body.state.has_block(block),
    ensures
        placed(lower_op(b, scope, s, block)),
        lower_op(b, scope, s, block).body.state.status.len() >= s.body.state.status.len(),
        lower_op(b, scope, s, block).ends == s.ends,
        b.op is ControlForever ==> lower_op(b, scope, s, block).body.state.filled(),
    decreases b, 0nat,
{
    match b.op {
        BlockOpView::ControlRepeat { times, body } => {
            let head = s.body.state.status.len();
            let s1 = lower_repeat_head(times, scope, s);
            lemma_repeat_head_place(times, scope, s);
            lemma_block_filled(*body, scope, s1.push_end(head), head + 1);
            let s2 = lower_block(*body, scope, s1.push_end(head), head + 1).pop_end();
            assert(s2.ends =~= s.ends);
            match b.next {
                Some(next) => {
                    lemma_block_filled(*next, scope, s2, head + 2);
                },
                None => {
                    let s3 = s2.emit(OpView::SwitchToBlock { block: head + 2 });
                    assert(placed(s3));
                    assert(placed(s3.fall_off_end()));
                },
            }
        },
        BlockOpView::ControlForever(body) => {
            lemma_block_filled(*body, scope, s.push_end(block), block);
            assert(lower_op(b, scope, s, block).ends =~= s.ends);
        },
        BlockOpView::ControlIfElse { condition, consequent, alternative } => {
            let first = s.body.state.status.len();
            let s1 = lower_if_head(condition, alternative is Some, scope, s);
            lemma_if_head_place(condition, alternative is Some, scope, s);
            lemma_block_filled(*consequent, scope, s1.push_end(first + 2), first);
            let s2 = lower_block(*consequent, scope, s1.push_end(first + 2), first);
            match alternative {
                Some(a) => {
                    lemma_block_filled(*a, scope, s2, first + 1);
                },
                None => {},
            }
            let s3 = match alternative {
                Some(a) => lower_block(*a, scope, s2, first + 1),
                None => s2,
            }.pop_end();
            assert(s3.ends =~= s.ends);
            match b.next {
                Some(next) => {
                    lemma_block_filled(*next, scope, s3, first + 2);
                },
                None => {
                    let s4 = s3.emit(OpView::SwitchToBlock { block: first + 2 });
                    assert(placed(s4));
                    assert(placed(s4.fall_off_end()));
                },
            }
        },
        _ => {
            lemma_statement_stays(b, scope, s, block);
        },
    }
}

/// Every basic block is terminated: after the steps of a statement chain
/// begun in a block that exists, the block that is appended to has its
/// terminator.
pub proof fn lemma_block_filled(b: BlockView, scope: ScopeView, s: Lowering, block: nat)
    requires
        s.body.state.has_block(block),
    ensures
        lower_block(b, scope, s, block).body.state.filled(),
        lower_block(b, scope, s, block).body.state.status.len() >= s.body.state.status.len(),
        lower_block(b, scope, s, block).ends == s.ends,
    decreases b, 1nat,
{
    let s0 = s.emit(OpView::SwitchToBlock { block });
    lemma_op_placed(b, scope, s0, block);
    let s1 = lower_op(b, scope, s0, block);
    if !s1.body.state.filled() {
        match b.next {
            Some(next) => {
                let s2 = s1.emit(OpView::CreateBlock);
                lemma_block_filled(
                    *next,
                    scope,
                    s2.emit(OpView::Jump { block: s2.last_block() }),
                    s2.last_block(),
                );
            },
            None => {},
        }
    }
}

/// A forever never reaches a block lowered after it: the steps of a chain
/// that starts with a forever are those of the forever alone, whatever
/// follows it.
pub proof fn law_nothing_follows_forever(
    body: BlockView,
    next: Option<Box<BlockView>>,
    scope: ScopeView,
    s: Lowering,
    block: nat,
)
    requires
        s.body.state.has_block(block),
    ensures
        lower_block(
            BlockView { op: BlockOpView::ControlForever(Box::new(body)), next },
            scope,
            s,
            block,
        ) == lower_block(
            BlockView { op: BlockOpView::ControlForever(Box::new(body)), next: None },
            scope,
            s,
            block,
        ),
{
    let s0 = s.emit(OpView::SwitchToBlock { block });
    let with = BlockView { op: BlockOpView::ControlForever(Box::new(body)), next };
    let without = BlockView { op: BlockOpView::ControlForever(Box::new(body)), next: None };
    lemma_op_placed(with, scope, s0, block);
    assert(lower_op(with, scope, s0, block) == lower_op(without, scope, s0, block));
}

} // verus!
