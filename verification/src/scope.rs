//! The names that a function body may use, and whether it uses no others.

use vstd::prelude::*;
use crate::builder::option_nat;
use crate::dict::strings_view;
use crate::scratch::Block;
use crate::scratch::BlockExpression;
use crate::scratch::BlockExpressionView;
use crate::scratch::BlockOp;
use crate::scratch::BlockOpView;
use crate::scratch::BlockView;
use crate::scratch::Procedure;
use crate::scratch::Value;
use crate::scratch::ValueView;
use crate::scratch::values_view;
use crate::text::str_eq;

verus! {

/// Why a program cannot be given to a backend.
#[derive(Debug, Clone, Copy, PartialEq, Eq, Structural)]
pub enum CodeGenError {
    /// Two variables have one identifier.
    DuplicateVariable,
    /// Two procedures have one identifier.
    DuplicateProcedure,
    /// A statement or an operand names a variable that is not declared.
    UnknownVariable,
    /// An operand names a parameter that the function does not have.
    UnknownArgument,
    /// A call names a procedure that is not defined.
    UnknownProcedure,
    /// A call passes another number of operands than the procedure has
    /// parameters.
    ArityMismatch,
}

/// The first place at which `name` stands in `names`.
pub open spec fn first_index(names: Seq<Seq<char>>, name: Seq<char>) -> Option<nat>
    decreases names.len(),
{
    if names.len() == 0 {
        None
    } else {
        match first_index(names.drop_last(), name) {
            Some(i) => Some(i),
            None => if names.last() == name {
                Some((names.len() - 1) as nat)
            } else {
                None
            },
        }
    }
}

/// The last place at which `name` stands in `names`.
pub open spec fn last_index(names: Seq<Seq<char>>, name: Seq<char>) -> Option<nat>
    decreases names.len(),
{
    if names.len() == 0 {
        None
    } else if names.last() == name {
        Some((names.len() - 1) as nat)
    } else {
        last_index(names.drop_last(), name)
    }
}

/// `first_index` gives a place of the name with none before it.
pub proof fn lemma_first_index(names: Seq<Seq<char>>, name: Seq<char>)
    ensures
        match first_index(names, name) {
            Some(i) => i < names.len() && names[i as int] == name && forall|j: int|
                0 <= j < i ==> names[j] != name,
            None => forall|j: int| 0 <= j < names.len() ==> names[j] != name,
        },
    decreases names.len(),
{
    if names.len() > 0 {
        let front = names.drop_last();
        lemma_first_index(front, name);
        assert forall|j: int| 0 <= j < front.len() implies front[j] == names[j] by {}
        match first_index(front, name) {
            Some(i) => {
                assert(names[i as int] == front[i as int]);
            },
            None => {
                assert forall|j: int| 0 <= j < names.len() - 1 implies names[j] != name by {
                    assert(front[j] == names[j]);
                }
            },
        }
    }
}

/// `last_index` gives a place of the name with none after it.
pub proof fn lemma_last_index(names: Seq<Seq<char>>, name: Seq<char>)
    ensures
        match last_index(names, name) {
            Some(i) => i < names.len() && names[i as int] == name && forall|j: int|
                i < j < names.len() ==> names[j] != name,
            None => forall|j: int| 0 <= j < names.len() ==> names[j] != name,
        },
    decreases names.len(),
{
    if names.len() > 0 && names.last() != name {
        let front = names.drop_last();
        lemma_last_index(front, name);
        match last_index(front, name) {
            Some(i) => {
                assert(names[i as int] == front[i as int]);
                assert forall|j: int| i < j < names.len() implies names[j] != name by {
                    if j < front.len() {
                        assert(front[j] == names[j]);
                    }
                }
            },
            None => {
                assert forall|j: int| 0 <= j < names.len() implies names[j] != name by {
                    if j < front.len() {
                        assert(front[j] == names[j]);
                    }
                }
            },
        }
    }
}

/// Whether no name stands twice in `names`.
pub open spec fn distinct(names: Seq<Seq<char>>) -> bool {
    forall|i: int, j: int| 0 <= i < j < names.len() ==> names[i] != names[j]
}

/// The names that a function body may use.
pub ghost struct ScopeView {
    /// The identifiers of the variables; variable `i` lives in data object
    /// `i`.
    pub variables: Seq<Seq<char>>,
    /// The identifiers of the procedures; procedure `i` is function `i`.
    pub procedures: Seq<Seq<char>>,
    /// The number of parameters of each procedure.
    pub arities: Seq<nat>,
    /// The names of the function's own parameters; parameter `i` is kept
    /// in variable `i` of the body.
    pub arguments: Seq<Seq<char>>,
}

/// The identifiers of a list of procedures.
pub open spec fn procedure_ids(procedures: Seq<Procedure>) -> Seq<Seq<char>> {
    Seq::new(procedures.len(), |i: int| procedures[i].id@)
}

/// The numbers of parameters of a list of procedures.
pub open spec fn procedure_arities(procedures: Seq<Procedure>) -> Seq<nat> {
    Seq::new(procedures.len(), |i: int| procedures[i].arguments@.len())
}

/// A list of counts as natural numbers.
pub open spec fn counts_view(counts: Seq<usize>) -> Seq<nat> {
    Seq::new(counts.len(), |i: int| counts[i] as nat)
}

/// The names that a function body may use.
pub struct Scope<'a> {
    pub variables: &'a [String],
    pub procedures: &'a [String],
    pub arities: &'a [usize],
    pub arguments: &'a [String],
}

impl<'a> View for Scope<'a> {
    type V = ScopeView;

    open spec fn view(&self) -> ScopeView {
        ScopeView {
            variables: strings_view(self.variables@),
            procedures: strings_view(self.procedures@),
            arities: counts_view(self.arities@),
            arguments: strings_view(self.arguments@),
        }
    }
}

/// Whether the operand names only variables and parameters of the scope;
/// the error of the first name, in the order of evaluation, that is none.
pub open spec fn check_value(v: ValueView, scope: ScopeView) -> Result<(), CodeGenError>
    decreases v,
{
    match v {
        ValueView::Number(_) => Ok(()),
        ValueView::String(_) => Ok(()),
        ValueView::Load(id) => if first_index(scope.variables, id) is Some {
            Ok(())
        } else {
            Err(CodeGenError::UnknownVariable)
        },
        ValueView::Expression(e) => match *e {
            BlockExpressionView::OperatorEquals { left, right } => match check_value(left, scope) {
                Err(e) => Err(e),
                Ok(_) => check_value(right, scope),
            },
            BlockExpressionView::OperatorGT { left, right } => match check_value(left, scope) {
                Err(e) => Err(e),
                Ok(_) => check_value(right, scope),
            },
            BlockExpressionView::OperatorAdd { left, right } => match check_value(left, scope) {
                Err(e) => Err(e),
                Ok(_) => check_value(right, scope),
            },
            BlockExpressionView::OperatorSubtract { left, right } => match check_value(
                left,
                scope,
            ) {
                Err(e) => Err(e),
                Ok(_) => check_value(right, scope),
            },
            BlockExpressionView::ArgumentReporterStringNumber { name } => if last_index(
                scope.arguments,
                name,
            ) is Some {
                Ok(())
            } else {
                Err(CodeGenError::UnknownArgument)
            },
        },
    }
}

/// Whether the first `n` of the operands pass `check_value`.
pub open spec fn check_values(values: Seq<ValueView>, n: nat, scope: ScopeView) -> Result<
    (),
    CodeGenError,
>
    decreases n,
{
    if n == 0 {
        Ok(())
    } else {
        match check_values(values, (n - 1) as nat, scope) {
            Err(e) => Err(e),
            Ok(_) => check_value(values[n - 1], scope),
        }
    }
}

/// Whether a call of `proc` with `count` operands names a procedure of the
/// scope and passes as many operands as it has parameters.
pub open spec fn check_callee(proc: Seq<char>, count: nat, scope: ScopeView) -> Result<
    (),
    CodeGenError,
> {
    match first_index(scope.procedures, proc) {
        None => Err(CodeGenError::UnknownProcedure),
        Some(i) => if scope.arities[i as int] == count {
            Ok(())
        } else {
            Err(CodeGenError::ArityMismatch)
        },
    }
}

/// Whether control never passes from the statement to the one after it.
pub open spec fn ends_chain(op: BlockOpView) -> bool {
    op is ControlForever || op is ControlStopAll || op is ControlStopScript
}

/// Whether the statement uses only names of the scope; the error of the
/// first use, in the order of evaluation, that does not.
pub open spec fn check_op(op: BlockOpView, scope: ScopeView) -> Result<(), CodeGenError>
    decreases op,
{
    match op {
        BlockOpView::ControlRepeat { times, body } => match check_value(times, scope) {
            Err(e) => Err(e),
            Ok(_) => check_block(*body, scope),
        },
        BlockOpView::ControlForever(body) => check_block(*body, scope),
        BlockOpView::ControlWait(seconds) => check_value(seconds, scope),
        BlockOpView::ControlIfElse { condition, consequent, alternative } => match check_value(
            condition,
            scope,
        ) {
            Err(e) => Err(e),
            Ok(_) => match check_block(*consequent, scope) {
                Err(e) => Err(e),
                Ok(_) => match alternative {
                    Some(b) => check_block(*b, scope),
                    None => Ok(()),
                },
            },
        },
        BlockOpView::ControlStopAll => Ok(()),
        BlockOpView::ControlStopScript => Ok(()),
        BlockOpView::LooksSay(message) => if message is String {
            Ok(())
        } else {
            check_value(message, scope)
        },
        BlockOpView::EventWhenFlagClicked => Ok(()),
        BlockOpView::DataSetVariableTo { id, value } => match check_value(value, scope) {
            Err(e) => Err(e),
            Ok(_) => if first_index(scope.variables, id) is Some {
                Ok(())
            } else {
                Err(CodeGenError::UnknownVariable)
            },
        },
        BlockOpView::DataChangeVariableBy { id, value } => if first_index(scope.variables, id)
            is Some {
            check_value(value, scope)
        } else {
            Err(CodeGenError::UnknownVariable)
        },
        BlockOpView::ProceduresCall { proc, args } => match check_values(
            args,
            args.len(),
            scope,
        ) {
            Err(e) => Err(e),
            Ok(_) => check_callee(proc, args.len(), scope),
        },
    }
}

/// Whether the statements of the chain that control can reach use only
/// names of the scope; the error of the first use, in the order of
/// evaluation, that does not. What follows a statement that ends the chain
/// is not looked at.
pub open spec fn check_block(b: BlockView, scope: ScopeView) -> Result<(), CodeGenError>
    decreases b,
{
    match check_op(b.op, scope) {
        Err(e) => Err(e),
        Ok(_) => if ends_chain(b.op) {
            Ok(())
        } else {
            match b.next {
                Some(next) => check_block(*next, scope),
                None => Ok(()),
            }
        },
    }
}

/// Once one operand fails the check, the whole list fails in the same way.
proof fn lemma_check_values_fail(values: Seq<ValueView>, n: nat, m: nat, scope: ScopeView)
    requires
        n <= m,
        check_values(values, n, scope) is Err,
    ensures
        check_values(values, m, scope) == check_values(values, n, scope),
    decreases m - n,
{
    if n < m {
        lemma_check_values_fail(values, n + 1, m, scope);
    }
}

/// The first place at which `name` stands in `names`.
pub fn find_first(names: &[String], name: &str) -> (r: Option<usize>)
    ensures
        option_nat(r) == first_index(strings_view(names@), name@),
{
    let ghost view = strings_view(names@);
    let mut i: usize = 0;
    while i < names.len()
        invariant
            i <= names.len(),
            view == strings_view(names@),
            forall|j: int| 0 <= j < i ==> view[j] != name@,
        decreases names.len() - i,
    {
        if str_eq(names[i].as_str(), name) {
            proof {
                assert(view[i as int] == name@);
                lemma_first_index(view, name@);
            }
            return Some(i);
        }
        i += 1;
    }
    proof {
        lemma_first_index(view, name@);
    }
    None
}

/// The last place at which `name` stands in `names`.
pub fn find_last(names: &[String], name: &str) -> (r: Option<usize>)
    ensures
        option_nat(r) == last_index(strings_view(names@), name@),
{
    let ghost view = strings_view(names@);
    let mut i: usize = names.len();
    while i > 0
        invariant
            i <= names.len(),
            view == strings_view(names@),
            forall|j: int| i <= j < names.len() ==> view[j] != name@,
        decreases i,
    {
        i -= 1;
        if str_eq(names[i].as_str(), name) {
            proof {
                assert(view[i as int] == name@);
                lemma_last_index(view, name@);
            }
            return Some(i);
        }
    }
    proof {
        lemma_last_index(view, name@);
    }
    None
}

/// Whether no name stands twice in `names`.
pub fn all_distinct(names: &[String]) -> (r: bool)
    ensures
        r == distinct(strings_view(names@)),
{
    let ghost view = strings_view(names@);
    let mut i: usize = 0;
    while i < names.len()
        invariant
            i <= names.len(),
            view == strings_view(names@),
            forall|a: int, b: int| 0 <= a < b < i ==> view[a] != view[b],
        decreases names.len() - i,
    {
        proof {
            lemma_first_index(view, view[i as int]);
        }
        match find_first(names, names[i].as_str()) {
            Some(k) => if k != i {
                assert(view[k as int] == view[i as int]);
                return false;
            },
            None => {},
        }
        i += 1;
    }
    true
}

impl Value {
    /// Whether the operand uses only names of the scope.
    pub fn check(&self, scope: &Scope) -> (r: Result<(), CodeGenError>)
        ensures
            r == check_value(self@, scope@),
        decreases self,
    {
        match self {
            Value::Number(_) => Ok(()),
            Value::String(_) => Ok(()),
            Value::Load(id) => if find_first(scope.variables, id.as_str()).is_some() {
                Ok(())
            } else {
                Err(CodeGenError::UnknownVariable)
            },
            Value::Expression(e) => {
                assert(self@ == ValueView::Expression(Box::new(e@)));
                match &**e {
                    BlockExpression::OperatorEquals { left, right } => match left.check(scope) {
                        Err(e) => Err(e),
                        Ok(_) => right.check(scope),
                    },
                    BlockExpression::OperatorGT { left, right } => match left.check(scope) {
                        Err(e) => Err(e),
                        Ok(_) => right.check(scope),
                    },
                    BlockExpression::OperatorAdd { left, right } => match left.check(scope) {
                        Err(e) => Err(e),
                        Ok(_) => right.check(scope),
                    },
                    BlockExpression::OperatorSubtract { left, right } => match left.check(scope) {
                        Err(e) => Err(e),
                        Ok(_) => right.check(scope),
                    },
                    BlockExpression::ArgumentReporterStringNumber { name } => if find_last(
                        scope.arguments,
                        name.as_str(),
                    ).is_some() {
                        Ok(())
                    } else {
                        Err(CodeGenError::UnknownArgument)
                    },
                }
            },
        }
    }
}

fn check_arguments(args: &Vec<Value>, scope: &Scope) -> (r: Result<(), CodeGenError>)
    ensures
        r == check_values(values_view(args@), args@.len(), scope@),
{
    let ghost values = values_view(args@);
    let mut i: usize = 0;
    while i < args.len()
        invariant
            i <= args.len(),
            values == values_view(args@),
            check_values(values, i as nat, scope@) == Ok::<(), CodeGenError>(()),
        decreases args.len() - i,
    {
        match args[i].check(scope) {
            Err(e) => {
                proof {
                    assert(check_values(values, (i + 1) as nat, scope@) == Err::<
                        (),
                        CodeGenError,
                    >(e));
                    lemma_check_values_fail(values, (i + 1) as nat, args@.len(), scope@);
                }
                return Err(e);
            },
            Ok(u) => {
                assert(check_value(values[i as int], scope@) == Ok::<(), CodeGenError>(u));
                assert(u == ());
                assert(check_values(values, (i + 1) as nat, scope@) == check_value(
                    values[i as int],
                    scope@,
                ));
            },
        }
        i += 1;
    }
    Ok(())
}

fn check_callee_of(proc: &str, count: usize, scope: &Scope) -> (r: Result<(), CodeGenError>)
    requires
        scope.arities@.len() == scope.procedures@.len(),
    ensures
        r == check_callee(proc@, count as nat, scope@),
{
    proof {
        lemma_first_index(scope@.procedures, proc@);
    }
    match find_first(scope.procedures, proc) {
        None => Err(CodeGenError::UnknownProcedure),
        Some(i) => if scope.arities[i] == count {
            Ok(())
        } else {
            Err(CodeGenError::ArityMismatch)
        },
    }
}

impl BlockOp {
    /// Whether control never passes from the statement to the one after it.
    pub fn ends_chain(&self) -> (r: bool)
        ensures
            r == ends_chain(self@),
    {
        match self {
            BlockOp::ControlForever(_) => true,
            BlockOp::ControlStopAll => true,
            BlockOp::ControlStopScript => true,
            _ => false,
        }
    }

    /// Whether the statement uses only names of the scope.
    pub fn check(&self, scope: &Scope) -> (r: Result<(), CodeGenError>)
        requires
            scope.arities@.len() == scope.procedures@.len(),
        ensures
            r == check_op(self@, scope@),
        decreases self,
    {
        match self {
            BlockOp::ControlRepeat { times, body } => match times.check(scope) {
                Err(e) => Err(e),
                Ok(_) => body.check(scope),
            },
            BlockOp::ControlForever(body) => body.check(scope),
            BlockOp::ControlWait(seconds) => seconds.check(scope),
            BlockOp::ControlIfElse { condition, consequent, alternative } => match condition.check(
                scope,
            ) {
                Err(e) => Err(e),
                Ok(_) => match consequent.check(scope) {
                    Err(e) => Err(e),
                    Ok(_) => match alternative {
                        Some(b) => b.check(scope),
                        None => Ok(()),
                    },
                },
            },
            BlockOp::ControlStopAll => Ok(()),
            BlockOp::ControlStopScript => Ok(()),
            BlockOp::LooksSay(message) => match message {
                Value::String(_) => Ok(()),
                _ => message.check(scope),
            },
            BlockOp::EventWhenFlagClicked => Ok(()),
            BlockOp::DataSetVariableTo { id, value } => match value.check(scope) {
                Err(e) => Err(e),
                Ok(_) => if find_first(scope.variables, id.as_str()).is_some() {
                    Ok(())
                } else {
                    Err(CodeGenError::UnknownVariable)
                },
            },
            BlockOp::DataChangeVariableBy { id, value } => if find_first(
                scope.variables,
                id.as_str(),
            ).is_some() {
                value.check(scope)
            } else {
                Err(CodeGenError::UnknownVariable)
            },
            BlockOp::ProceduresCall { proc, args } => match check_arguments(args, scope) {
                Err(e) => Err(e),
                Ok(_) => check_callee_of(proc.as_str(), args.len(), scope),
            },
        }
    }
}

impl Block {
    /// Whether the statements of the chain that control can reach use only
    /// names of the scope.
    pub fn check(&self, scope: &Scope) -> (r: Result<(), CodeGenError>)
        requires
            scope.arities@.len() == scope.procedures@.len(),
        ensures
            r == check_block(self@, scope@),
        decreases self,
    {
        assert(self@.op == self.op@);
        match self.op.check(scope) {
            Err(e) => Err(e),
            Ok(_) => if self.op.ends_chain() {
                Ok(())
            } else {
                match &self.next {
                    Some(next) => next.check(scope),
                    None => Ok(()),
                }
            },
        }
    }
}

} // verus!
