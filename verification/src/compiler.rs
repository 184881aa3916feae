//! From the typed program to a module: one cell for each variable, one
//! function for each procedure and each script, and `main`.

use vstd::prelude::*;
use crate::builder::Body;
use crate::builder::Builder;
use crate::dict::strings_view;
use crate::ir::DataDef;
use crate::ir::DataDefView;
use crate::ir::FunctionDef;
use crate::ir::FunctionDefView;
use crate::ir::Import;
use crate::ir::Module;
use crate::ir::ModuleView;
use crate::ir::Op;
use crate::ir::OpView;
use crate::ir::Type;
use crate::ir::data_view;
use crate::ir::functions_view;
use crate::ir::indices_view;
use crate::ir::run;
use crate::ir::valid;
use crate::lower::BlockCompiler;
use crate::lower::Lowering;
use crate::lower::grown;
use crate::lower::lower_block;
use crate::scope::CodeGenError;
use crate::scope::Scope;
use crate::scope::ScopeView;
use crate::scope::all_distinct;
use crate::scope::check_block;
use crate::scope::counts_view;
use crate::scope::distinct;
use crate::scratch::Block;
use crate::scratch::BlockView;
use crate::scratch::Procedure;
use crate::scratch::ProcedureView;
use crate::scratch::blocks_view;
use crate::scratch::procedures_view;
use crate::text::decimal;
use crate::text::decimal_text;
use crate::text::join;

verus! {

/// The bytes of a variable's cell: eight zero bytes.
pub open spec fn cell_bytes() -> Seq<u8> {
    Seq::new(8, |i: int| 0u8)
}

/// The cells of the variables: for each a writable data object under the
/// variable's identifier.
pub open spec fn cells(variables: Seq<Seq<char>>) -> Seq<DataDefView> {
    Seq::new(
        variables.len(),
        |i: int| DataDefView { name: variables[i], writable: true, bytes: cell_bytes() },
    )
}

/// The identifiers of the procedures.
pub open spec fn ids_of(procedures: Seq<ProcedureView>) -> Seq<Seq<char>> {
    Seq::new(procedures.len(), |i: int| procedures[i].id)
}

/// The number of parameters of each procedure.
pub open spec fn arities_of(procedures: Seq<ProcedureView>) -> Seq<nat> {
    Seq::new(procedures.len(), |i: int| procedures[i].arguments.len())
}

/// The names that a function with the parameters `arguments` may use.
pub open spec fn scope_of(
    variables: Seq<Seq<char>>,
    procedures: Seq<ProcedureView>,
    arguments: Seq<Seq<char>>,
) -> ScopeView {
    ScopeView {
        variables,
        procedures: ids_of(procedures),
        arities: arities_of(procedures),
        arguments,
    }
}

/// The symbol of a procedure's function.
pub open spec fn procedure_symbol(id: Seq<char>) -> Seq<char> {
    "proc_"@ + id
}

/// The symbol of the function of script `index`.
pub open spec fn script_symbol(index: nat) -> Seq<char> {
    "script_"@ + decimal_text(index)
}

/// The first `n` parameters, each put into a variable of its own: parameter
/// `i` into variable `i`.
pub open spec fn declare_params(s: Lowering, n: nat) -> Lowering
    decreases n,
{
    if n == 0 {
        s
    } else {
        let s1 = declare_params(s, (n - 1) as nat).emit(OpView::DeclareVar { ty: Type::F64 });
        let s2 = s1.emit(OpView::BlockParam { block: 0, index: (n - 1) as nat });
        s2.emit(OpView::DefVar { var: s1.last_var(), value: s2.last_value() })
    }
}

/// The body of a procedure: block 0 takes the parameters, each goes into
/// a variable, and the procedure's statements follow in the same block.
pub open spec fn lower_procedure(p: ProcedureView, scope: ScopeView, data: Seq<DataDefView>)
    -> Lowering {
    let start = Lowering {
        data,
        body: Body::start(p.arguments.len()),
        ends: Seq::empty(),
    };
    let entered = start.emit(OpView::CreateBlock).emit(
        OpView::AppendFunctionParams { block: 0 },
    ).emit(OpView::SwitchToBlock { block: 0 });
    lower_block(p.body, scope, declare_params(entered, p.arguments.len()), 0)
}

/// The body of a script: its statements, begun in block 0.
pub open spec fn lower_script(script: BlockView, scope: ScopeView, data: Seq<DataDefView>)
    -> Lowering {
    let start = Lowering { data, body: Body::start(0), ends: Seq::empty() };
    lower_block(script, scope, start.emit(OpView::CreateBlock), 0)
}

/// The procedures' functions: function `i` is procedure `i`. With them
/// the data objects, which grow by the text literals of the bodies.
pub open spec fn lower_procedures(
    variables: Seq<Seq<char>>,
    procedures: Seq<ProcedureView>,
    n: nat,
) -> (Seq<FunctionDefView>, Seq<DataDefView>)
    decreases n,
{
    if n == 0 {
        (Seq::empty(), cells(variables))
    } else {
        let (functions, data) = lower_procedures(variables, procedures, (n - 1) as nat);
        let p = procedures[n - 1];
        let lowered = lower_procedure(p, scope_of(variables, procedures, p.arguments), data);
        (
            functions.push(
                FunctionDefView {
                    name: procedure_symbol(p.id),
                    export: false,
                    params: p.arguments.len(),
                    body: lowered.body.ops,
                },
            ),
            lowered.data,
        )
    }
}

/// The procedures' functions, then those of the first `n` scripts.
pub open spec fn lower_scripts(
    variables: Seq<Seq<char>>,
    procedures: Seq<ProcedureView>,
    scripts: Seq<BlockView>,
    n: nat,
) -> (Seq<FunctionDefView>, Seq<DataDefView>)
    decreases n,
{
    if n == 0 {
        lower_procedures(variables, procedures, procedures.len())
    } else {
        let (functions, data) = lower_scripts(variables, procedures, scripts, (n - 1) as nat);
        let lowered = lower_script(
            scripts[n - 1],
            scope_of(variables, procedures, Seq::empty()),
            data,
        );
        (
            functions.push(
                FunctionDefView {
                    name: script_symbol((n - 1) as nat),
                    export: false,
                    params: 0,
                    body: lowered.body.ops,
                },
            ),
            lowered.data,
        )
    }
}

/// The steps that hand the functions `first`, ..., `first + n - 1` to
/// `spawn_script`, in this order.
pub open spec fn spawn_scripts(body: Body, spawn: nat, first: nat, n: nat) -> Body
    decreases n,
{
    if n == 0 {
        body
    } else {
        let b1 = spawn_scripts(body, spawn, first, (n - 1) as nat).emit(
            OpView::LocalFunc { func: (first + n - 1) as nat },
        );
        let b2 = b1.emit(OpView::FuncAddr { func_ref: (b1.state.func_refs - 1) as nat });
        b2.emit(OpView::Call { func_ref: spawn, args: seq![b2.last_value()] })
    }
}

/// The body of `main`: each script's function, in the order of the
/// scripts, is handed to `spawn_script`; then `join_scripts` is called.
pub open spec fn lower_main(first: nat, scripts: nat) -> Body {
    let b1 = Body::start(0).emit(OpView::CreateBlock).emit(OpView::SwitchToBlock { block: 0 }).emit(
        OpView::ImportFunc { import: Import::SpawnScript },
    );
    let b2 = spawn_scripts(b1, 0, first, scripts).emit(
        OpView::ImportFunc { import: Import::JoinScripts },
    );
    b2.emit(OpView::Call { func_ref: (b2.state.func_refs - 1) as nat, args: seq![] }).emit(
        OpView::Return,
    )
}

/// Whether the bodies of the first `n` procedures use only names that
/// they may use; the first error, in the order of the procedures.
pub open spec fn check_procedures(
    variables: Seq<Seq<char>>,
    procedures: Seq<ProcedureView>,
    n: nat,
) -> Result<(), CodeGenError>
    decreases n,
{
    if n == 0 {
        Ok(())
    } else {
        match check_procedures(variables, procedures, (n - 1) as nat) {
            Err(e) => Err(e),
            Ok(_) => check_block(
                procedures[n - 1].body,
                scope_of(variables, procedures, procedures[n - 1].arguments),
            ),
        }
    }
}

/// Whether the procedures and the first `n` scripts use only names that
/// they may use; the first error, procedures first.
pub open spec fn check_scripts(
    variables: Seq<Seq<char>>,
    procedures: Seq<ProcedureView>,
    scripts: Seq<BlockView>,
    n: nat,
) -> Result<(), CodeGenError>
    decreases n,
{
    if n == 0 {
        check_procedures(variables, procedures, procedures.len())
    } else {
        match check_scripts(variables, procedures, scripts, (n - 1) as nat) {
            Err(e) => Err(e),
            Ok(_) => check_block(scripts[n - 1], scope_of(variables, procedures, Seq::empty())),
        }
    }
}

/// The module of a program whose names are in order.
pub open spec fn assemble(
    variables: Seq<Seq<char>>,
    procedures: Seq<ProcedureView>,
    scripts: Seq<BlockView>,
) -> ModuleView {
    let (functions, data) = lower_scripts(variables, procedures, scripts, scripts.len());
    ModuleView {
        data,
        functions: functions.push(
            FunctionDefView {
                name: "main"@,
                export: true,
                params: 0,
                body: lower_main(procedures.len(), scripts.len()).ops,
            },
        ),
    }
}

/// What `compile` returns. A program in which two variables or two
/// procedures share an identifier is refused; so is one in which a
/// statement that control can reach names a variable, a parameter or a
/// procedure that is not there, or calls a procedure with the wrong number
/// of operands.
pub open spec fn spec_compile(
    variables: Seq<Seq<char>>,
    procedures: Seq<ProcedureView>,
    scripts: Seq<BlockView>,
) -> Result<ModuleView, CodeGenError> {
    if !distinct(variables) {
        Err(CodeGenError::DuplicateVariable)
    } else if !distinct(ids_of(procedures)) {
        Err(CodeGenError::DuplicateProcedure)
    } else {
        match check_scripts(variables, procedures, scripts, scripts.len()) {
            Err(e) => Err(e),
            Ok(_) => Ok(assemble(variables, procedures, scripts)),
        }
    }
}

/// Whether a function's body is valid and refers to no data object
/// beyond the first `data` and to no function beyond the first `functions`.
pub open spec fn function_ok(f: FunctionDefView, data: nat, functions: nat) -> bool {
    &&& valid(f.params, f.body)
    &&& run(f.params, f.body).data_bound <= data
    &&& run(f.params, f.body).func_bound <= functions
}

/// Once one procedure fails the check, the whole program fails in the same
/// way.
proof fn lemma_check_procedures_fail(
    variables: Seq<Seq<char>>,
    procedures: Seq<ProcedureView>,
    n: nat,
    m: nat,
)
    requires
        n <= m,
        check_procedures(variables, procedures, n) is Err,
    ensures
        check_procedures(variables, procedures, m) == check_procedures(variables, procedures, n),
    decreases m - n,
{
    if n < m {
        lemma_check_procedures_fail(variables, procedures, n + 1, m);
    }
}

/// Once one script fails the check, the whole program fails in the same
/// way.
proof fn lemma_check_scripts_fail(
    variables: Seq<Seq<char>>,
    procedures: Seq<ProcedureView>,
    scripts: Seq<BlockView>,
    n: nat,
    m: nat,
)
    requires
        n <= m,
        check_scripts(variables, procedures, scripts, n) is Err,
    ensures
        check_scripts(variables, procedures, scripts, m) == check_scripts(
            variables,
            procedures,
            scripts,
            n,
        ),
    decreases m - n,
{
    if n < m {
        lemma_check_scripts_fail(variables, procedures, scripts, n + 1, m);
    }
}

/// Where the procedures pass the check, each body does.
proof fn lemma_check_procedures_each(
    variables: Seq<Seq<char>>,
    procedures: Seq<ProcedureView>,
    n: nat,
)
    requires
        check_procedures(variables, procedures, n) is Ok,
    ensures
        forall|i: int|
            0 <= i < n ==> check_block(
                (#[trigger] procedures[i]).body,
                scope_of(variables, procedures, procedures[i].arguments),
            ) is Ok,
    decreases n,
{
    if n > 0 {
        lemma_check_procedures_each(variables, procedures, (n - 1) as nat);
    }
}

/// Where the program passes the check, the procedures and each script do.
proof fn lemma_check_scripts_each(
    variables: Seq<Seq<char>>,
    procedures: Seq<ProcedureView>,
    scripts: Seq<BlockView>,
    n: nat,
)
    requires
        check_scripts(variables, procedures, scripts, n) is Ok,
    ensures
        check_procedures(variables, procedures, procedures.len()) is Ok,
        forall|i: int|
            0 <= i < n ==> check_block(
                #[trigger] scripts[i],
                scope_of(variables, procedures, Seq::empty()),
            ) is Ok,
    decreases n,
{
    if n > 0 {
        lemma_check_scripts_each(variables, procedures, scripts, (n - 1) as nat);
    }
}

/// Growing twice is growing.
proof fn lemma_grown_twice(a: Seq<DataDefView>, b: Seq<DataDefView>, c: Seq<DataDefView>)
    requires
        grown(a, b),
        grown(b, c),
    ensures
        grown(a, c),
{
    assert forall|j: int| 0 <= j < a.len() implies #[trigger] c[j] == a[j] by {
        assert(b[j] == a[j]);
    }
    assert forall|j: int| a.len() <= j < c.len() implies !(#[trigger] c[j]).writable by {
        if j < b.len() {
            assert(c[j] == b[j]);
            assert(!b[j].writable);
        }
    }
}

fn compile_procedure(p: &Procedure, scope: &Scope, data: Vec<DataDef>) -> (r: (
    FunctionDef,
    Vec<DataDef>,
))
    requires
        scope@.arguments == p@.arguments,
        scope@.variables.len() <= data@.len(),
        check_block(p.body@, scope@) is Ok,
    ensures
        r.0@ == (FunctionDefView {
            name: procedure_symbol(p@.id),
            export: false,
            params: p@.arguments.len(),
            body: lower_procedure(p@, scope@, data_view(data@)).body.ops,
        }),
        data_view(r.1@) == lower_procedure(p@, scope@, data_view(data@)).data,
        grown(data_view(data@), data_view(r.1@)),
        function_ok(r.0@, r.1@.len(), scope@.procedures.len()),
{
    let n = p.arguments.len();
    let mut c = BlockCompiler { data, f: Builder::new(n), ends: Vec::new() };
    assert(c@.ends =~= Seq::<nat>::empty());
    let ghost start = c@;
    let block = c.f.create_block();
    c.f.append_function_params(block);
    c.f.switch_to_block(block);
    let ghost entered = c@;
    let mut i: usize = 0;
    while i < n
        invariant
            i <= n,
            n == p.arguments@.len(),
            block == 0,
            c.f.wf(),
            c@ == declare_params(entered, i as nat),
            c@.data == entered.data,
            c@.ends == entered.ends,
            c@.body.state.params == n,
            c@.body.state.status == seq![crate::ir::BlockStatus::Empty],
            c@.body.state.position == Some(0nat),
            c@.body.state.entry == Some(0nat),
            c@.body.state.vars.len() == i,
            c@.body.state.targets == Set::<nat>::empty(),
            c@.body.state.data_bound == 0,
            c@.body.state.func_bound == 0,
        decreases n - i,
    {
        let var = c.f.declare_var(Type::F64);
        let value = c.f.block_param(block, i);
        c.f.def_var(var, value);
        i += 1;
    }
    p.body.build(scope, &mut c, block);
    let BlockCompiler { data, f, ends: _ } = c;
    proof {
        f.lemma_wf();
    }
    let body = f.finish();
    (FunctionDef { name: join("proc_", p.id.as_str()), export: false, params: n, body }, data)
}

fn compile_script(script: &Block, index: usize, scope: &Scope, data: Vec<DataDef>) -> (r: (
    FunctionDef,
    Vec<DataDef>,
))
    requires
        scope@.arguments.len() == 0,
        scope@.variables.len() <= data@.len(),
        check_block(script@, scope@) is Ok,
    ensures
        r.0@ == (FunctionDefView {
            name: script_symbol(index as nat),
            export: false,
            params: 0,
            body: lower_script(script@, scope@, data_view(data@)).body.ops,
        }),
        data_view(r.1@) == lower_script(script@, scope@, data_view(data@)).data,
        grown(data_view(data@), data_view(r.1@)),
        function_ok(r.0@, r.1@.len(), scope@.procedures.len()),
{
    let mut c = BlockCompiler { data, f: Builder::new(0), ends: Vec::new() };
    assert(c@.ends =~= Seq::<nat>::empty());
    let block = c.f.create_block();
    script.build(scope, &mut c, block);
    let BlockCompiler { data, f, ends: _ } = c;
    proof {
        f.lemma_wf();
    }
    let body = f.finish();
    (
        FunctionDef {
            name: join("script_", decimal(index).as_str()),
            export: false,
            params: 0,
            body,
        },
        data,
    )
}

fn compile_main(first: usize, scripts: usize) -> (f: FunctionDef)
    requires
        first + scripts <= usize::MAX,
    ensures
        f@ == (FunctionDefView {
            name: "main"@,
            export: true,
            params: 0,
            body: lower_main(first as nat, scripts as nat).ops,
        }),
        function_ok(f@, 0, (first + scripts) as nat),
{
    let mut b = Builder::new(0);
    let block = b.create_block();
    b.switch_to_block(block);
    let spawn = b.import_func(Import::SpawnScript);
    let ghost begun = b@;
    let mut j: usize = 0;
    while j < scripts
        invariant
            j <= scripts,
            first + scripts <= usize::MAX,
            spawn == 0,
            b.wf(),
            b@ == spawn_scripts(begun, 0, first as nat, j as nat),
            b@.state.params == 0,
            b@.state.status.len() == 1,
            b@.state.position == Some(0nat),
            b@.state.open(),
            b@.state.func_refs >= 1,
            b@.state.func_bound <= first + j,
            b@.state.targets == Set::<nat>::empty(),
            b@.state.data_bound == 0,
        decreases scripts - j,
    {
        let func_ref = b.local_func(first + j);
        let addr = b.ins(Op::FuncAddr { func_ref }, Type::Pointer);
        let mut args: Vec<usize> = Vec::new();
        args.push(addr);
        assert(indices_view(args@) =~= seq![addr as nat]);
        b.effect(Op::Call { func_ref: spawn, args });
        j += 1;
    }
    let join_scripts = b.import_func(Import::JoinScripts);
    let none: Vec<usize> = Vec::new();
    assert(indices_view(none@) =~= Seq::<nat>::empty());
    b.effect(Op::Call { func_ref: join_scripts, args: none });
    b.terminate(Op::Return);
    proof {
        b.lemma_wf();
    }
    let body = b.finish();
    FunctionDef { name: "main".to_owned(), export: true, params: 0, body }
}

fn variable_cells(variables: &[String]) -> (data: Vec<DataDef>)
    ensures
        data_view(data@) == cells(strings_view(variables@)),
{
    let mut data: Vec<DataDef> = Vec::new();
    let mut i: usize = 0;
    while i < variables.len()
        invariant
            i <= variables.len(),
            data@.len() == i,
            forall|k: int|
                0 <= k < i ==> (#[trigger] data@[k])@ == (DataDefView {
                    name: variables@[k]@,
                    writable: true,
                    bytes: cell_bytes(),
                }),
        decreases variables.len() - i,
    {
        let mut bytes: Vec<u8> = Vec::new();
        let mut k: usize = 0;
        while k < 8
            invariant
                k <= 8,
                bytes@.len() == k,
                forall|j: int| 0 <= j < k ==> bytes@[j] == 0u8,
            decreases 8 - k,
        {
            bytes.push(0u8);
            k += 1;
        }
        assert(bytes@ =~= cell_bytes());
        data.push(DataDef { name: variables[i].clone(), writable: true, bytes });
        i += 1;
    }
    assert(data_view(data@) =~= cells(strings_view(variables@)));
    data
}

fn signatures(procedures: &[Procedure]) -> (r: (Vec<String>, Vec<usize>))
    ensures
        strings_view(r.0@) == ids_of(procedures_view(procedures@)),
        counts_view(r.1@) == arities_of(procedures_view(procedures@)),
{
    let mut ids: Vec<String> = Vec::new();
    let mut arities: Vec<usize> = Vec::new();
    let mut i: usize = 0;
    while i < procedures.len()
        invariant
            i <= procedures.len(),
            ids@.len() == i,
            arities@.len() == i,
            forall|k: int| 0 <= k < i ==> (#[trigger] ids@[k])@ == procedures@[k].id@,
            forall|k: int|
                0 <= k < i ==> (#[trigger] arities@[k]) == procedures@[k].arguments@.len(),
        decreases procedures.len() - i,
    {
        ids.push(procedures[i].id.clone());
        arities.push(procedures[i].arguments.len());
        i += 1;
    }
    assert(strings_view(ids@) =~= ids_of(procedures_view(procedures@)));
    assert(counts_view(arities@) =~= arities_of(procedures_view(procedures@)));
    (ids, arities)
}

fn check_program(
    variables: &[String],
    procedures: &[Procedure],
    scripts: &[Block],
    ids: &Vec<String>,
    arities: &Vec<usize>,
) -> (r: Result<(), CodeGenError>)
    requires
        strings_view(ids@) == ids_of(procedures_view(procedures@)),
        counts_view(arities@) == arities_of(procedures_view(procedures@)),
    ensures
        r == check_scripts(
            strings_view(variables@),
            procedures_view(procedures@),
            blocks_view(scripts@),
            scripts@.len(),
        ),
{
    let ghost vs = strings_view(variables@);
    let ghost ps = procedures_view(procedures@);
    let ghost ss = blocks_view(scripts@);
    let none: Vec<String> = Vec::new();
    assert(strings_view(none@) =~= Seq::<Seq<char>>::empty());
    let mut i: usize = 0;
    while i < procedures.len()
        invariant
            i <= procedures.len(),
            vs == strings_view(variables@),
            ps == procedures_view(procedures@),
            ss == blocks_view(scripts@),
            strings_view(ids@) == ids_of(ps),
            counts_view(arities@) == arities_of(ps),
            check_procedures(vs, ps, i as nat) == Ok::<(), CodeGenError>(()),
        decreases procedures.len() - i,
    {
        let p = &procedures[i];
        let scope = Scope {
            variables,
            procedures: ids.as_slice(),
            arities: arities.as_slice(),
            arguments: p.arguments.as_slice(),
        };
        assert(ps[i as int] == p@);
        assert(scope@ == scope_of(vs, ps, p@.arguments));
        assert(strings_view(ids@).len() == ids@.len() && counts_view(arities@).len()
            == arities@.len());
        match p.body.check(&scope) {
            Err(e) => {
                proof {
                    assert(check_procedures(vs, ps, (i + 1) as nat) == Err::<(), CodeGenError>(e));
                    lemma_check_procedures_fail(vs, ps, (i + 1) as nat, ps.len());
                    lemma_check_scripts_fail(vs, ps, ss, 0, ss.len());
                }
                return Err(e);
            },
            Ok(u) => {
                assert(u == ());
            },
        }
        i += 1;
    }
    let mut j: usize = 0;
    while j < scripts.len()
        invariant
            j <= scripts.len(),
            vs == strings_view(variables@),
            ps == procedures_view(procedures@),
            ss == blocks_view(scripts@),
            strings_view(ids@) == ids_of(ps),
            counts_view(arities@) == arities_of(ps),
            strings_view(none@) == Seq::<Seq<char>>::empty(),
            check_scripts(vs, ps, ss, j as nat) == Ok::<(), CodeGenError>(()),
        decreases scripts.len() - j,
    {
        let scope = Scope {
            variables,
            procedures: ids.as_slice(),
            arities: arities.as_slice(),
            arguments: none.as_slice(),
        };
        assert(ss[j as int] == scripts@[j as int]@);
        assert(scope@ == scope_of(vs, ps, Seq::empty()));
        assert(strings_view(ids@).len() == ids@.len() && counts_view(arities@).len()
            == arities@.len());
        match scripts[j].check(&scope) {
            Err(e) => {
                proof {
                    assert(check_scripts(vs, ps, ss, (j + 1) as nat) == Err::<(), CodeGenError>(e));
                    lemma_check_scripts_fail(vs, ps, ss, (j + 1) as nat, ss.len());
                }
                return Err(e);
            },
            Ok(u) => {
                assert(u == ());
            },
        }
        j += 1;
    }
    Ok(())
}

/// Compiles a program: the variables' identifiers, the procedures and the
/// scripts of all its targets.
///
/// The module holds a cell for each variable, then the data objects of the
/// text literals, which are read-only; a function for each procedure, then
/// one for each script, then `main`. Every function body in it is valid.
pub fn compile(variables: &[String], procedures: &[Procedure], scripts: &[Block]) -> (r: Result<
    Module,
    CodeGenError,
>)
    ensures
        match r {
            Ok(m) => spec_compile(
                strings_view(variables@),
                procedures_view(procedures@),
                blocks_view(scripts@),
            ) == Ok::<ModuleView, CodeGenError>(m@) && m@.valid() && grown(
                cells(strings_view(variables@)),
                m@.data,
            ),
            Err(e) => spec_compile(
                strings_view(variables@),
                procedures_view(procedures@),
                blocks_view(scripts@),
            ) == Err::<ModuleView, CodeGenError>(e),
        },
{
    let ghost vs = strings_view(variables@);
    let ghost ps = procedures_view(procedures@);
    let ghost ss = blocks_view(scripts@);
    if !all_distinct(variables) {
        return Err(CodeGenError::DuplicateVariable);
    }
    let (ids, arities) = signatures(procedures);
    if !all_distinct(ids.as_slice()) {
        return Err(CodeGenError::DuplicateProcedure);
    }
    match check_program(variables, procedures, scripts, &ids, &arities) {
        Err(e) => {
            return Err(e);
        },
        Ok(_) => {},
    }
    proof {
        lemma_check_scripts_each(vs, ps, ss, ss.len());
        lemma_check_procedures_each(vs, ps, ps.len());
    }
    let none: Vec<String> = Vec::new();
    assert(strings_view(none@) =~= Seq::<Seq<char>>::empty());
    let mut data = variable_cells(variables);
    assert(data_view(data@).len() == data@.len());
    assert(grown(cells(vs), data_view(data@)));
    let mut functions: Vec<FunctionDef> = Vec::new();
    assert(functions_view(functions@) =~= Seq::<FunctionDefView>::empty());
    let mut i: usize = 0;
    while i < procedures.len()
        invariant
            i <= procedures.len(),
            vs == strings_view(variables@),
            ps == procedures_view(procedures@),
            strings_view(ids@) == ids_of(ps),
            counts_view(arities@) == arities_of(ps),
            forall|k: int|
                0 <= k < ps.len() ==> check_block(
                    (#[trigger] ps[k]).body,
                    scope_of(vs, ps, ps[k].arguments),
                ) is Ok,
            (functions_view(functions@), data_view(data@)) == lower_procedures(vs, ps, i as nat),
            functions@.len() == i,
            vs.len() <= data@.len(),
            grown(cells(vs), data_view(data@)),
            forall|k: int|
                0 <= k < functions@.len() ==> function_ok(
                    #[trigger] functions_view(functions@)[k],
                    data@.len() as nat,
                    ps.len(),
                ),
        decreases procedures.len() - i,
    {
        let p = &procedures[i];
        let scope = Scope {
            variables,
            procedures: ids.as_slice(),
            arities: arities.as_slice(),
            arguments: p.arguments.as_slice(),
        };
        assert(ps[i as int] == p@);
        assert(scope@ == scope_of(vs, ps, p@.arguments));
        let ghost before = functions_view(functions@);
        let ghost held = data_view(data@);
        let (function, more) = compile_procedure(p, &scope, data);
        data = more;
        proof {
            lemma_grown_twice(cells(vs), held, data_view(data@));
        }
        functions.push(function);
        assert(functions_view(functions@) =~= before.push(function@));
        i += 1;
    }
    let mut j: usize = 0;
    while j < scripts.len()
        invariant
            j <= scripts.len(),
            vs == strings_view(variables@),
            ps == procedures_view(procedures@),
            ss == blocks_view(scripts@),
            ps.len() == procedures@.len(),
            strings_view(ids@) == ids_of(ps),
            counts_view(arities@) == arities_of(ps),
            strings_view(none@) == Seq::<Seq<char>>::empty(),
            forall|k: int|
                0 <= k < ss.len() ==> check_block(
                    #[trigger] ss[k],
                    scope_of(vs, ps, Seq::empty()),
                ) is Ok,
            (functions_view(functions@), data_view(data@)) == lower_scripts(vs, ps, ss, j as nat),
            functions@.len() == procedures@.len() + j,
            vs.len() <= data@.len(),
            grown(cells(vs), data_view(data@)),
            forall|k: int|
                0 <= k < functions@.len() ==> function_ok(
                    #[trigger] functions_view(functions@)[k],
                    data@.len() as nat,
                    ps.len(),
                ),
        decreases scripts.len() - j,
    {
        let scope = Scope {
            variables,
            procedures: ids.as_slice(),
            arities: arities.as_slice(),
            arguments: none.as_slice(),
        };
        assert(ss[j as int] == scripts@[j as int]@);
        assert(scope@ == scope_of(vs, ps, Seq::empty()));
        let ghost before = functions_view(functions@);
        let ghost held = data_view(data@);
        let (function, more) = compile_script(&scripts[j], j, &scope, data);
        data = more;
        proof {
            lemma_grown_twice(cells(vs), held, data_view(data@));
        }
        functions.push(function);
        assert(functions_view(functions@) =~= before.push(function@));
        j += 1;
    }
    assert(functions.len() <= usize::MAX);
    let ghost before = functions_view(functions@);
    let main = compile_main(procedures.len(), scripts.len());
    functions.push(main);
    assert(functions_view(functions@) =~= before.push(main@));
    let module = Module { data, functions };
    assert(module@ == assemble(vs, ps, ss));
    Ok(module)
}

} // verus!
