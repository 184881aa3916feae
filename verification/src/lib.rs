//! A compiler from block programs to native code, up to the point where a
//! backend takes over: project records are turned into a typed program, and
//! the typed program into the data objects and function bodies of a module.

pub mod builder;
pub mod chain;
pub mod compiler;
pub mod dict;
pub mod hydrate;
pub mod ir;
pub mod json;
pub mod laws;
pub mod lower;
pub mod project;
pub mod scope;
pub mod scratch;
pub mod statement;
pub mod text;

use vstd::prelude::*;
use crate::compiler::cells;
use crate::dict::strings_view;
use crate::hydrate::HydrateError;
use crate::hydrate::spec_hydrate_target;
use crate::ir::Module;
use crate::ir::ModuleView;
use crate::lower::grown;
use crate::project::ProjectInfo;
use crate::project::TargetInfoView;
use crate::project::Variables;
use crate::scope::CodeGenError;
use crate::scratch::Block;
use crate::scratch::BlockView;
use crate::scratch::Procedure;
use crate::scratch::ProcedureView;
use crate::scratch::Target;
use crate::scratch::blocks_view;
use crate::scratch::procedures_view;

verus! {

/// Why a project could not be compiled.
#[derive(Debug, Clone, Copy, PartialEq, Eq, Structural)]
pub enum CompileError {
    /// A block dictionary could not be turned into a program.
    Hydrate(HydrateError),
    /// The program cannot be given to a backend.
    CodeGen(CodeGenError),
}

/// The variables, procedures and scripts of the first `n` targets, each
/// list in the order of the targets; the error of the first target that
/// cannot be hydrated.
pub open spec fn gather(targets: Seq<TargetInfoView>, n: nat) -> Result<
    (Seq<Seq<char>>, Seq<ProcedureView>, Seq<BlockView>),
    HydrateError,
>
    decreases n,
{
    if n == 0 {
        Ok((Seq::empty(), Seq::empty(), Seq::empty()))
    } else {
        match gather(targets, (n - 1) as nat) {
            Err(e) => Err(e),
            Ok((variables, procedures, scripts)) => match spec_hydrate_target(targets[n - 1]) {
                Err(e) => Err(e),
                Ok(target) => Ok(
                    (
                        variables + target.variables,
                        procedures + target.procedures,
                        scripts + target.scripts,
                    ),
                ),
            },
        }
    }
}

/// What `compile` returns: the module of the program that the targets
/// give together.
pub open spec fn spec_compile_project(targets: Seq<TargetInfoView>) -> Result<
    ModuleView,
    CompileError,
> {
    match gather(targets, targets.len()) {
        Err(e) => Err(CompileError::Hydrate(e)),
        Ok((variables, procedures, scripts)) => match compiler::spec_compile(
            variables,
            procedures,
            scripts,
        ) {
            Err(e) => Err(CompileError::CodeGen(e)),
            Ok(module) => Ok(module),
        },
    }
}

/// Once one target fails, the whole project fails in the same way.
proof fn lemma_gather_fail(targets: Seq<TargetInfoView>, n: nat, m: nat)
    requires
        n <= m,
        gather(targets, n) is Err,
    ensures
        gather(targets, m) == gather(targets, n),
    decreases m - n,
{
    if n < m {
        lemma_gather_fail(targets, n + 1, m);
    }
}

fn push_ids(ids: &mut Vec<String>, variables: &Variables)
    ensures
        strings_view(final(ids)@) == strings_view(old(ids)@) + project::variable_ids(variables@),
{
    let ghost before = strings_view(ids@);
    let mut i: usize = 0;
    while i < variables.len()
        invariant
            i <= variables.len(),
            strings_view(ids@) == before + project::variable_ids(variables@).take(i as int),
        decreases variables.len() - i,
    {
        let ghost so_far = strings_view(ids@);
        ids.push(variables[i].0.clone());
        assert(strings_view(ids@) =~= so_far.push(variables@[i as int].0@));
        assert(project::variable_ids(variables@).take(i + 1) =~= project::variable_ids(
            variables@,
        ).take(i as int).push(variables@[i as int].0@));
        i += 1;
    }
    assert(project::variable_ids(variables@).take(i as int) =~= project::variable_ids(variables@));
}

fn absorb(
    target: Target,
    variables: &mut Vec<String>,
    procedures: &mut Vec<Procedure>,
    scripts: &mut Vec<Block>,
)
    ensures
        strings_view(final(variables)@) == strings_view(old(variables)@) + target@.variables,
        procedures_view(final(procedures)@) == procedures_view(old(procedures)@)
            + target@.procedures,
        blocks_view(final(scripts)@) == blocks_view(old(scripts)@) + target@.scripts,
{
    let ghost t = target@;
    let ghost p0 = procedures_view(procedures@);
    let ghost s0 = blocks_view(scripts@);
    let Target { variables: ids, scripts: mut more_scripts, procedures: mut more } = target;
    push_ids(variables, &ids);
    procedures.append(&mut more);
    scripts.append(&mut more_scripts);
    assert(procedures_view(procedures@) =~= p0 + t.procedures);
    assert(blocks_view(scripts@) =~= s0 + t.scripts);
}

/// Compiles a project: each target is hydrated, in order; the variables,
/// procedures and scripts of all targets together are compiled to one
/// module. Every function body of the module is valid, and its data
/// objects are the cells of the variables, then read-only objects.
pub fn compile(project: ProjectInfo) -> (r: Result<Module, CompileError>)
    ensures
        match r {
            Ok(m) => spec_compile_project(project@) == Ok::<ModuleView, CompileError>(m@)
                && m@.valid() && grown(cells(gather(project@, project@.len())->Ok_0.0), m@.data),
            Err(e) => spec_compile_project(project@) == Err::<ModuleView, CompileError>(e),
        },
{
    let ghost all = project@;
    let ProjectInfo { targets: mut targets, extensions: _, meta: _ } = project;
    let mut variables: Vec<String> = Vec::new();
    let mut procedures: Vec<Procedure> = Vec::new();
    let mut scripts: Vec<Block> = Vec::new();
    let ghost total = targets@.len();
    assert(targets.len() <= usize::MAX);
    let mut n: usize = 0;
    assert(strings_view(variables@) =~= Seq::<Seq<char>>::empty());
    assert(procedures_view(procedures@) =~= Seq::<ProcedureView>::empty());
    assert(blocks_view(scripts@) =~= Seq::<BlockView>::empty());
    while targets.len() > 0
        invariant
            all.len() == total,
            total <= usize::MAX,
            all == project@,
            n + targets@.len() == total,
            forall|k: int| 0 <= k < targets@.len() ==> (#[trigger] targets@[k])@ == all[n + k],
            gather(all, n as nat) == Ok::<
                (Seq<Seq<char>>, Seq<ProcedureView>, Seq<BlockView>),
                HydrateError,
            >((strings_view(variables@), procedures_view(procedures@), blocks_view(scripts@))),
        decreases targets@.len(),
    {
        assert(targets@[0]@ == all[n + 0]);
        let ghost waiting = targets@;
        let info = targets.remove(0);
        assert forall|k: int| 0 <= k < targets@.len() implies (#[trigger] targets@[k])@ == all[n
            + 1 + k] by {
            assert(targets@[k] == waiting[k + 1]);
        }
        match Target::hydrate(info) {
            Err(e) => {
                proof {
                    assert(gather(all, (n + 1) as nat) == Err::<
                        (Seq<Seq<char>>, Seq<ProcedureView>, Seq<BlockView>),
                        HydrateError,
                    >(e));
                    lemma_gather_fail(all, (n + 1) as nat, total);
                }
                return Err(CompileError::Hydrate(e));
            },
            Ok(target) => {
                absorb(target, &mut variables, &mut procedures, &mut scripts);
            },
        }
        n += 1;
    }
    match compiler::compile(variables.as_slice(), procedures.as_slice(), scripts.as_slice()) {
        Err(e) => Err(CompileError::CodeGen(e)),
        Ok(module) => Ok(module),
    }
}

} // verus!
