//! The steps of statement chains: loops, branches, and what follows a
//! statement.

use vstd::prelude::*;
use crate::ir::BlockStatus;
use crate::ir::Op;
use crate::lower::BlockCompiler;
use crate::lower::block_built;
use crate::lower::lower_block;
use crate::lower::lower_op;
use crate::lower::op_built;
use crate::scope::Scope;
use crate::scope::check_block;
use crate::scope::check_op;
use crate::scope::check_value;
use crate::scope::ends_chain;
use crate::scratch::Block;
use crate::scratch::BlockOp;
use crate::scratch::BlockOpView;
use crate::scratch::BlockView;
use crate::statement::build_call;
use crate::statement::build_change;
use crate::statement::build_if_head;
use crate::statement::build_repeat_head;
use crate::statement::build_say;
use crate::statement::build_set;
use crate::statement::build_stop_all;
use crate::statement::build_wait;

verus! {

impl Block {
    fn build_repeat(&self, scope: &Scope, c: &mut BlockCompiler, block: usize)
        requires
            self.op is ControlRepeat,
            old(c).inv(scope@),
            old(c)@.body.state.position == Some(block as nat),
            old(c)@.body.state.has_block(block as nat),
            old(c)@.body.state.status[block as int] == BlockStatus::Empty,
            check_block(self@, scope@) is Ok,
        ensures
            final(c).inv(scope@),
            final(c)@ == lower_op(self@, scope@, old(c)@, block as nat),
            op_built(old(c)@, final(c)@, block as nat),
            final(c)@.body.state.filled(),
        decreases self, 0nat,
    {
        assert(self@.op == self.op@);
        match &self.op {
            BlockOp::ControlRepeat { times, body } => {
                assert(self.op@ == BlockOpView::ControlRepeat {
                    times: times@,
                    body: Box::new(body@),
                });
                assert(check_op(self.op@, scope@) is Ok);
                assert(check_value(times@, scope@) is Ok);
                assert(check_block(body@, scope@) is Ok);
                let ghost s0 = c@;
                let head = build_repeat_head(times, scope, c);
                c.push_end(head);
                body.build(scope, c, head + 1);
                let ghost s2 = c@;
                c.pop_end();
                assert(c@.ends =~= s0.ends);
                assert(c@ == s2.pop_end());
                match &self.next {
                    Some(next) => {
                        next.build(scope, c, head + 2);
                    },
                    None => {
                        c.f.switch_to_block(head + 2);
                        c.fall_off_end(scope);
                    },
                }
            },
            _ => {},
        }
    }

    fn build_forever(&self, scope: &Scope, c: &mut BlockCompiler, block: usize)
        requires
            self.op is ControlForever,
            old(c).inv(scope@),
            old(c)@.body.state.position == Some(block as nat),
            old(c)@.body.state.has_block(block as nat),
            old(c)@.body.state.status[block as int] == BlockStatus::Empty,
            check_block(self@, scope@) is Ok,
        ensures
            final(c).inv(scope@),
            final(c)@ == lower_op(self@, scope@, old(c)@, block as nat),
            op_built(old(c)@, final(c)@, block as nat),
            final(c)@.body.state.filled(),
        decreases self, 0nat,
    {
        assert(self@.op == self.op@);
        match &self.op {
            BlockOp::ControlForever(body) => {
                assert(self.op@ == BlockOpView::ControlForever(Box::new(body@)));
                assert(check_op(self.op@, scope@) is Ok);
                assert(check_block(body@, scope@) is Ok);
                let ghost s0 = c@;
                c.push_end(block);
                body.build(scope, c, block);
                c.pop_end();
                assert(c@.ends =~= s0.ends);
            },
            _ => {},
        }
    }

    fn build_if_else(&self, scope: &Scope, c: &mut BlockCompiler, block: usize)
        requires
            self.op is ControlIfElse,
            old(c).inv(scope@),
            old(c)@.body.state.position == Some(block as nat),
            old(c)@.body.state.has_block(block as nat),
            old(c)@.body.state.status[block as int] == BlockStatus::Empty,
            check_block(self@, scope@) is Ok,
        ensures
            final(c).inv(scope@),
            final(c)@ == lower_op(self@, scope@, old(c)@, block as nat),
            op_built(old(c)@, final(c)@, block as nat),
            final(c)@.body.state.filled(),
        decreases self, 0nat,
    {
        assert(self@.op == self.op@);
        match &self.op {
            BlockOp::ControlIfElse { condition, consequent, alternative } => {
                assert(self.op@ == BlockOpView::ControlIfElse {
                    condition: condition@,
                    consequent: Box::new(consequent@),
                    alternative: match alternative {
                        Some(a) => Some(Box::new(a@)),
                        None => None,
                    },
                });
                assert(check_op(self.op@, scope@) is Ok);
                assert(check_value(condition@, scope@) is Ok);
                assert(check_block(consequent@, scope@) is Ok);
                let ghost s0 = c@;
                let first = build_if_head(condition, alternative.is_some(), scope, c);
                c.push_end(first + 2);
                consequent.build(scope, c, first);
                match alternative {
                    Some(a) => {
                        a.build(scope, c, first + 1);
                    },
                    None => {},
                }
                let ghost s3 = c@;
                c.pop_end();
                assert(c@.ends =~= s0.ends);
                assert(c@ == s3.pop_end());
                match &self.next {
                    Some(next) => {
                        next.build(scope, c, first + 2);
                    },
                    None => {
                        c.f.switch_to_block(first + 2);
                        c.fall_off_end(scope);
                    },
                }
            },
            _ => {},
        }
    }

    fn build_op(&self, scope: &Scope, c: &mut BlockCompiler, block: usize)
        requires
            old(c).inv(scope@),
            old(c)@.body.state.position == Some(block as nat),
            old(c)@.body.state.has_block(block as nat),
            old(c)@.body.state.status[block as int] == BlockStatus::Empty,
            check_block(self@, scope@) is Ok,
        ensures
            final(c).inv(scope@),
            final(c)@ == lower_op(self@, scope@, old(c)@, block as nat),
            op_built(old(c)@, final(c)@, block as nat),
            ends_chain(self@.op) ==> final(c)@.body.state.filled(),
        decreases self, 1nat,
    {
        assert(self@.op == self.op@);
        assert(check_op(self.op@, scope@) is Ok);
        match &self.op {
            BlockOp::ControlRepeat { .. } => self.build_repeat(scope, c, block),
            BlockOp::ControlForever(_) => self.build_forever(scope, c, block),
            BlockOp::ControlWait(seconds) => build_wait(seconds, scope, c),
            BlockOp::ControlIfElse { .. } => self.build_if_else(scope, c, block),
            BlockOp::ControlStopAll => build_stop_all(scope, c),
            BlockOp::ControlStopScript => c.f.terminate(Op::Return),
            BlockOp::LooksSay(message) => build_say(message, scope, c),
            BlockOp::EventWhenFlagClicked => {},
            BlockOp::DataSetVariableTo { id, value } => build_set(id, value, scope, c),
            BlockOp::DataChangeVariableBy { id, value } => build_change(id, value, scope, c),
            BlockOp::ProceduresCall { proc, args } => build_call(proc, args, scope, c),
        }
    }

    /// Appends the steps of the statement chain, begun in `block`.
    ///
    /// What follows a statement that ends the chain (a forever, a stop) is
    /// not lowered: the steps are those of the chain cut after that
    /// statement.
    pub fn build(&self, scope: &Scope, c: &mut BlockCompiler, block: usize)
        requires
            old(c).inv(scope@),
            old(c)@.body.state.at_rest(),
            old(c)@.body.state.has_block(block as nat),
            old(c)@.body.state.status[block as int] == BlockStatus::Empty,
            check_block(self@, scope@) is Ok,
        ensures
            final(c).inv(scope@),
            final(c)@ == lower_block(self@, scope@, old(c)@, block as nat),
            block_built(old(c)@, final(c)@, block as nat),
            ends_chain(self@.op) ==> final(c)@ == lower_block(
                BlockView { op: self@.op, next: None },
                scope@,
                old(c)@,
                block as nat,
            ),
        decreases self, 2nat,
    {
        c.f.switch_to_block(block);
        let ghost s1 = c@;
        self.build_op(scope, c, block);
        let ghost s2 = c@;
        proof {
            let cut = BlockView { op: self@.op, next: None };
            if self@.op is ControlForever {
                assert(lower_op(cut, scope@, s1, block as nat) == s2);
            } else if self@.op is ControlStopAll {
                assert(lower_op(cut, scope@, s1, block as nat) == s2);
            } else if self@.op is ControlStopScript {
                assert(lower_op(cut, scope@, s1, block as nat) == s2);
            }
        }
        if !c.f.is_filled() {
            match &self.next {
                Some(next) => {
                    let following = c.f.create_block();
                    c.f.terminate(Op::Jump { block: following });
                    next.build(scope, c, following);
                },
                None => c.fall_off_end(scope),
            }
        }
    }
}

} // verus!
