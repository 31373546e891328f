//! Linearization: from the lowered tree of a function body to its
//! control-flow graph.

use vstd::prelude::*;
use unique_id::Generator;
use unique_id::string::StringGenerator;
use crate::closed::{closed, law_graph_closed};
use crate::cfg::{
    BasicBlock, BlockReturn, BlockTail, FnGraph, GraphView, Instruction, LinearizeError, Slot,
    SlotView, Terminator, view_slots,
};
use crate::linear::{
    FrameView, Join, JoinValue, LinState, ProgramView, agreeing, agrees, branch_error, decl_slots, finished, initial, join, joined,
    lin_args, lin_assign, lin_block, lin_block_expr, lin_call, lin_expr, lin_fn_body, lin_fn_defs,
    lin_if, lin_loop, lin_module, lin_opt_block, lin_opt_expr, lin_params, lin_stmt, lin_stmts,
    needed, param_slots, place_slot, signature_named, slot_named, lemma_decl_slots_fails,
    lemma_lin_args_fails, lemma_lin_fn_defs_fails, lemma_lin_params_fails, lemma_lin_stmts_fails,
};
use crate::lir::{
    Block, Decl, DeclFn, Expression, ExpressionValue, FnBody, If, LExpression, LExpressionValue,
    Module, Statement, view_decls, view_exprs, view_fn_decls, view_opt_block, view_opt_expr,
    view_opt_type, view_params, view_stmts,
};
use crate::types::{Ident, Op, Type};

verus! {

/// A generator of unique strings. Nothing is known of what it holds.
#[verifier::external_type_specification]
#[verifier::external_body]
pub struct ExStringGenerator(StringGenerator);

/// Calls `next_id` of the string generator of `unique_id`, which makes a
/// string from a random UUID. Nothing is claimed of the string.
#[verifier::external_body]
fn fresh_label(labels: &StringGenerator) -> (label: String) {
    labels.next_id()
}

/// A loop whose body is being linearized.
#[derive(Debug)]
pub struct LoopFrame {
    /// The block in which control goes on after the loop.
    pub cont: usize,
    /// Whether the `break`s of the loop carry a value.
    pub carries: bool,
    /// What the `break`s met so far carry, each with the block it leaves.
    pub incoming: Vec<(usize, usize)>,
}

impl View for LoopFrame {
    type V = FrameView;

    open spec fn view(&self) -> FrameView {
        FrameView { cont: self.cont, carries: self.carries, incoming: self.incoming@ }
    }
}

/// The models of a stack of loops, element by element.
pub open spec fn view_frames(fs: Seq<LoopFrame>) -> Seq<FrameView> {
    Seq::new(fs.len(), |i: int| fs[i]@)
}

/// The state of the linearization of one function.
#[derive(Debug)]
pub struct Linearizer {
    pub graph: FnGraph,
    /// The block that instructions are appended to.
    pub current: usize,
    /// The enclosing loops, innermost last.
    pub loops: Vec<LoopFrame>,
    /// The size of the constant pool.
    pub consts: usize,
}

impl View for Linearizer {
    type V = LinState;

    open spec fn view(&self) -> LinState {
        LinState {
            graph: self.graph@,
            current: self.current,
            loops: view_frames(self.loops@),
            consts: self.consts,
        }
    }
}

impl Linearizer {
    /// Adds a block with the given label to the graph and returns its index.
    pub fn new_block(&mut self, label: String) -> (id: usize)
        ensures
            (id, final(self)@) == old(self)@.new_block(),
    {
        let id = self.graph.blocks.len();
        self.graph.blocks.push(
            BasicBlock { label, insts: Vec::new(), term: Terminator::Unreachable },
        );
        assert(self@.graph.blocks =~= old(self)@.new_block().1.graph.blocks);
        id
    }

    /// Appends an instruction to the current block and returns its index.
    pub fn emit(&mut self, inst: Instruction) -> (id: usize)
        ensures
            (id, final(self)@) == old(self)@.emit(inst@),
    {
        let id = self.graph.insts.len();
        self.graph.insts.push(inst);
        let cur = self.current;
        if cur < self.graph.blocks.len() {
            self.graph.blocks[cur].insts.push(id);
        }
        assert(self@.graph.insts =~= old(self)@.emit(inst@).1.graph.insts);
        assert(self@.graph.blocks =~= old(self)@.emit(inst@).1.graph.blocks);
        id
    }

    /// Gives a block its terminator.
    pub fn terminate(&mut self, block: usize, term: Terminator)
        ensures
            final(self)@ == old(self)@.terminate(block, term),
    {
        if block < self.graph.blocks.len() {
            self.graph.blocks[block].term = term;
        }
        assert(self@.graph.blocks =~= old(self)@.terminate(block, term).graph.blocks);
    }

    /// Makes `block` the block that instructions are appended to.
    pub fn at(&mut self, block: usize)
        ensures
            final(self)@ == old(self)@.at(block),
    {
        self.current = block;
    }
}

impl Linearizer {
    /// Enters a loop that goes on in `cont`.
    pub fn enter_loop(&mut self, cont: usize, carries: bool)
        ensures
            final(self)@ == old(self)@.enter_loop(cont, carries),
    {
        self.loops.push(LoopFrame { cont, carries, incoming: Vec::new() });
        assert(self@.loops =~= old(self)@.enter_loop(cont, carries).loops);
    }

    /// Leaves the innermost loop and returns what its `break`s carried.
    pub fn leave_loop(&mut self) -> (incoming: Vec<(usize, usize)>)
        ensures
            (incoming@, final(self)@) == old(self)@.leave_loop(),
    {
        let top = self.loops.pop();
        proof {
            if old(self).loops@.len() > 0 {
                assert(self@.loops =~= old(self)@.loops.drop_last());
                assert(old(self)@.loops.last() == old(self).loops@.last()@);
            } else {
                assert(self@.loops =~= old(self)@.loops);
            }
        }
        match top {
            Some(frame) => if frame.carries {
                frame.incoming
            } else {
                Vec::new()
            },
            None => Vec::new(),
        }
    }

    /// Leaves the innermost loop from the current block by a `break`.
    pub fn leave_by_break(&mut self, value: Option<usize>) -> (r: Result<(), LinearizeError>)
        ensures
            match old(self)@.leave_by_break(value) {
                Ok(s) => r.is_ok() && final(self)@ == s,
                Err(k) => r == Err::<(), LinearizeError>(k) && final(self)@ == old(self)@,
            },
    {
        let top = self.loops.pop();
        proof {
            if old(self).loops@.len() > 0 {
                assert(old(self)@.loops.last() == old(self).loops@.last()@);
            }
        }
        match top {
            None => {
                assert(self@.loops =~= old(self)@.loops);
                Err(LinearizeError::BreakOutsideLoop)
            },
            Some(mut frame) => {
                if frame.carries {
                    match value {
                        Some(v) => {
                            frame.incoming.push((v, self.current));
                        },
                        None => {
                            self.loops.push(frame);
                            assert(self@.loops =~= old(self)@.loops);
                            return Err(LinearizeError::MissingValue);
                        },
                    }
                }
                let cont = frame.cont;
                self.loops.push(frame);
                assert(self@.loops =~= old(self)@.loops.update(
                    old(self)@.loops.len() - 1,
                    frame@,
                ));
                let cur = self.current;
                self.terminate(cur, Terminator::Branch(cont));
                Ok(())
            },
        }
    }

    /// The slot that a name stands for: the last one of that name.
    pub fn slot_named(&self, name: &String) -> (r: Option<usize>)
        ensures
            r == slot_named(self@.graph.slots, name@),
    {
        let ghost slots = self@.graph.slots;
        let mut i: usize = self.graph.slots.len();
        assert(slots.take(i as int) =~= slots);
        while i > 0
            invariant
                i <= self.graph.slots.len(),
                slots == self@.graph.slots,
                slot_named(slots, name@) == slot_named(slots.take(i as int), name@),
            decreases i,
        {
            i = i - 1;
            assert(slots.take(i + 1).drop_last() =~= slots.take(i as int));
            if self.graph.slots[i].name == *name {
                return Some(i);
            }
        }
        None
    }

    /// The slot of a place. Only a local has one.
    pub fn compile_lexpr(&self, place: &LExpression) -> (r: Result<usize, LinearizeError>)
        ensures
            r == place_slot(place@, self@.graph.slots),
    {
        match &place.value {
            LExpressionValue::Var(Ident::Local(name)) => match self.slot_named(name) {
                Some(slot) => Ok(slot),
                None => Err(LinearizeError::UnknownLocal),
            },
            LExpressionValue::Var(_) => Err(LinearizeError::UnsupportedPlace),
        }
    }
}

/// The value of an expression that has to have one.
pub fn need(value: Option<usize>) -> (r: Result<usize, LinearizeError>)
    ensures
        r == needed(value),
{
    match value {
        Some(v) => Ok(v),
        None => Err(LinearizeError::MissingValue),
    }
}

/// Whether the branches of a conditional can be joined: whether it is not
/// so that one falls through with a value and the other without.
pub fn tails_agree(then_tail: BlockTail, else_tail: BlockTail) -> (r: bool)
    ensures
        r == join(then_tail, else_tail).is_ok(),
        r == !((then_tail is Value && else_tail is NoValue) || (then_tail is NoValue
            && else_tail is Value)),
{
    match (then_tail, else_tail) {
        (BlockTail::Value(_), BlockTail::NoValue) => false,
        (BlockTail::NoValue, BlockTail::Value(_)) => false,
        _ => true,
    }
}

/// How the two branches of a conditional are joined, by how control leaves
/// each of them. The branches have to agree.
pub fn join_tails(then_tail: BlockTail, else_tail: BlockTail) -> (how: Join)
    requires
        join(then_tail, else_tail).is_ok(),
    ensures
        join(then_tail, else_tail) == Ok::<Join, LinearizeError>(how),
        how.then_falls == (then_tail != BlockTail::Returned),
        how.else_falls == (else_tail != BlockTail::Returned),
{
    match (then_tail, else_tail) {
        (BlockTail::Returned, BlockTail::Returned) => Join {
            then_falls: false,
            else_falls: false,
            value: JoinValue::Nothing,
        },
        (BlockTail::Returned, BlockTail::NoValue) => Join {
            then_falls: false,
            else_falls: true,
            value: JoinValue::Nothing,
        },
        (BlockTail::Returned, BlockTail::Value(v)) => Join {
            then_falls: false,
            else_falls: true,
            value: JoinValue::One(v),
        },
        (BlockTail::NoValue, BlockTail::Returned) => Join {
            then_falls: true,
            else_falls: false,
            value: JoinValue::Nothing,
        },
        (BlockTail::Value(v), BlockTail::Returned) => Join {
            then_falls: true,
            else_falls: false,
            value: JoinValue::One(v),
        },
        (BlockTail::Value(a), BlockTail::Value(b)) => Join {
            then_falls: true,
            else_falls: true,
            value: JoinValue::Merge(a, b),
        },
        _ => Join { then_falls: true, else_falls: true, value: JoinValue::Nothing },
    }
}

impl Linearizer {
    /// Linearizes an expression into the current block and the blocks
    /// after it, as far as it is consistent, and returns its value, if it
    /// yields one, or the inconsistency that it comes to first.
    fn build_expr(&mut self, e: &Expression, labels: &StringGenerator) -> (r: Result<
        Option<usize>,
        LinearizeError,
    >)
        ensures
            match lin_expr(e@, old(self)@) {
                Ok((v, s)) => r == Ok::<Option<usize>, LinearizeError>(v) && final(self)@ == s,
                Err((k, s)) => r == Err::<Option<usize>, LinearizeError>(k) && final(self)@ == s,
            },
        decreases e, 0nat,
    {
        match &e.value {
            ExpressionValue::ConstInt(n) => Ok(Some(self.emit(Instruction::ConstInt(*n)))),
            ExpressionValue::ConstStr(i) => {
                if *i < self.consts {
                    Ok(Some(self.emit(Instruction::ConstStr(*i))))
                } else {
                    Err(LinearizeError::UnknownConstant)
                }
            },
            ExpressionValue::LExpr(place) => match self.compile_lexpr(place) {
                Ok(slot) => Ok(Some(self.emit(Instruction::Load(slot)))),
                Err(k) => Err(k),
            },
            ExpressionValue::Assign(op, place, value) => self.build_assign(
                *op,
                place,
                &**value,
                labels,
            ),
            ExpressionValue::Op(op, l, r) => {
                let lv = match self.build_expr(&**l, labels) {
                    Ok(v) => v,
                    Err(k) => {
                        return Err(k);
                    },
                };
                let lv = match need(lv) {
                    Ok(v) => v,
                    Err(k) => {
                        return Err(k);
                    },
                };
                let rv = match self.build_expr(&**r, labels) {
                    Ok(v) => v,
                    Err(k) => {
                        return Err(k);
                    },
                };
                let rv = match need(rv) {
                    Ok(v) => v,
                    Err(k) => {
                        return Err(k);
                    },
                };
                Ok(Some(self.emit(Instruction::Op(*op, lv, rv))))
            },
            ExpressionValue::CallConcrete(callee, args) => self.build_call(
                callee,
                args,
                e.ty.is_some(),
                labels,
            ),
            ExpressionValue::Block(b) => self.build_block_expr(&**b, labels),
            ExpressionValue::If(i) => self.build_if(i, labels),
            ExpressionValue::Loop(b) => self.build_loop(&e.ty, &**b, labels),
        }
    }

    /// Linearizes an optional expression.
    fn build_opt_expr(&mut self, e: &Option<Expression>, labels: &StringGenerator) -> (r:
        Result<Option<usize>, LinearizeError>)
        ensures
            match lin_opt_expr(view_opt_expr(*e), old(self)@) {
                Ok((v, s)) => r == Ok::<Option<usize>, LinearizeError>(v) && final(self)@ == s,
                Err((k, s)) => r == Err::<Option<usize>, LinearizeError>(k) && final(self)@ == s,
            },
        decreases e, 1nat,
    {
        match e {
            None => Ok(None),
            Some(e) => self.build_expr(e, labels),
        }
    }

    /// Linearizes an assignment.
    fn build_assign(
        &mut self,
        op: Option<Op>,
        place: &LExpression,
        value: &Expression,
        labels: &StringGenerator,
    ) -> (r: Result<Option<usize>, LinearizeError>)
        ensures
            match lin_assign(op, place@, value@, old(self)@) {
                Ok((v, s)) => r == Ok::<Option<usize>, LinearizeError>(v) && final(self)@ == s,
                Err((k, s)) => r == Err::<Option<usize>, LinearizeError>(k) && final(self)@ == s,
            },
        decreases value, 1nat,
    {
        let v = match self.build_expr(value, labels) {
            Ok(v) => v,
            Err(k) => {
                return Err(k);
            },
        };
        let v = match need(v) {
            Ok(v) => v,
            Err(k) => {
                return Err(k);
            },
        };
        let slot = match self.compile_lexpr(place) {
            Ok(slot) => slot,
            Err(k) => {
                return Err(k);
            },
        };
        let _ = self.emit(Instruction::Store(slot, op, v));
        Ok(Some(v))
    }

    /// Linearizes the arguments of a call, in order.
    fn build_args(&mut self, args: &Vec<Expression>, labels: &StringGenerator) -> (r: Result<
        Vec<usize>,
        LinearizeError,
    >)
        ensures
            match lin_args(view_exprs(args@), args@.len(), old(self)@) {
                Ok((v, s)) => r matches Ok(x) && x@ == v && final(self)@ == s,
                Err((k, s)) => r matches Err(err) && err == k && final(self)@ == s,
            },
        decreases args, 0nat,
    {
        let ghost s0 = self@;
        let mut out: Vec<usize> = Vec::new();
        let mut i: usize = 0;
        while i < args.len()
            invariant
                i <= args.len(),
                s0 == old(self)@,
                lin_args(view_exprs(args@), i as nat, s0) == Ok::<
                    (Seq<usize>, LinState),
                    (LinearizeError, LinState),
                >((out@, self@)),
            decreases args.len() - i,
        {
            proof {
                assert(decreases_to!(args => args[i as int]));
            }
            let v = match self.build_expr(&args[i], labels) {
                Ok(v) => v,
                Err(k) => {
                    proof {
                        lemma_lin_args_fails(view_exprs(args@), (i + 1) as nat, args@.len(), s0);
                    }
                    return Err(k);
                },
            };
            let v = match need(v) {
                Ok(v) => v,
                Err(k) => {
                    proof {
                        lemma_lin_args_fails(view_exprs(args@), (i + 1) as nat, args@.len(), s0);
                    }
                    return Err(k);
                },
            };
            out.push(v);
            i = i + 1;
        }
        Ok(out)
    }

    /// Linearizes a call.
    fn build_call(
        &mut self,
        callee: &Ident,
        args: &Vec<Expression>,
        yields: bool,
        labels: &StringGenerator,
    ) -> (r: Result<Option<usize>, LinearizeError>)
        ensures
            match lin_call(callee@, view_exprs(args@), yields, old(self)@) {
                Ok((v, s)) => r == Ok::<Option<usize>, LinearizeError>(v) && final(self)@ == s,
                Err((k, s)) => r == Err::<Option<usize>, LinearizeError>(k) && final(self)@ == s,
            },
        decreases args, 1nat,
    {
        let values = match self.build_args(args, labels) {
            Ok(v) => v,
            Err(k) => {
                return Err(k);
            },
        };
        let v = self.emit(Instruction::Call(callee.clone(), values));
        if yields {
            Ok(Some(v))
        } else {
            Ok(None)
        }
    }

    /// Linearizes a statement. The result tells whether control leaves by
    /// it.
    fn build_statement(&mut self, st: &Statement, labels: &StringGenerator) -> (r: Result<
        bool,
        LinearizeError,
    >)
        ensures
            match lin_stmt(st@, old(self)@) {
                Ok((v, s)) => r == Ok::<bool, LinearizeError>(v) && final(self)@ == s,
                Err((k, s)) => r == Err::<bool, LinearizeError>(k) && final(self)@ == s,
            },
        decreases st, 2nat,
    {
        match st {
            Statement::Eval(e) => match self.build_expr(e, labels) {
                Ok(_) => Ok(false),
                Err(k) => Err(k),
            },
            Statement::Return(e) => {
                let v = match self.build_opt_expr(e, labels) {
                    Ok(v) => v,
                    Err(k) => {
                        return Err(k);
                    },
                };
                if e.is_some() && v.is_none() {
                    return Err(LinearizeError::MissingValue);
                }
                let cur = self.current;
                self.terminate(cur, Terminator::Return(v));
                Ok(true)
            },
            Statement::Decl(name, e) => {
                let slot = match self.slot_named(name) {
                    Some(slot) => slot,
                    None => {
                        return Err(LinearizeError::UnknownLocal);
                    },
                };
                let v = match self.build_expr(e, labels) {
                    Ok(v) => v,
                    Err(k) => {
                        return Err(k);
                    },
                };
                let v = match need(v) {
                    Ok(v) => v,
                    Err(k) => {
                        return Err(k);
                    },
                };
                let _ = self.emit(Instruction::Store(slot, None, v));
                Ok(false)
            },
            Statement::Break(e) => {
                let v = match self.build_opt_expr(e, labels) {
                    Ok(v) => v,
                    Err(k) => {
                        return Err(k);
                    },
                };
                match self.leave_by_break(v) {
                    Ok(()) => Ok(true),
                    Err(k) => Err(k),
                }
            },
        }
    }

    /// Linearizes the statements of a block, in order. The result tells
    /// whether control has left by the last of them.
    fn build_statements(&mut self, stmts: &Vec<Statement>, labels: &StringGenerator) -> (r:
        Result<bool, LinearizeError>)
        ensures
            match lin_stmts(view_stmts(stmts@), stmts@.len(), old(self)@) {
                Ok((v, s)) => r == Ok::<bool, LinearizeError>(v) && final(self)@ == s,
                Err((k, s)) => r == Err::<bool, LinearizeError>(k) && final(self)@ == s,
            },
        decreases stmts, 0nat,
    {
        let ghost s0 = self@;
        let ghost ss = view_stmts(stmts@);
        let mut returned = false;
        let mut i: usize = 0;
        while i < stmts.len()
            invariant
                i <= stmts.len(),
                ss == view_stmts(stmts@),
                s0 == old(self)@,
                lin_stmts(ss, i as nat, s0) == Ok::<(bool, LinState), (LinearizeError, LinState)>(
                    (returned, self@),
                ),
            decreases stmts.len() - i,
        {
            if returned {
                proof {
                    lemma_lin_stmts_fails(ss, (i + 1) as nat, ss.len(), s0);
                }
                return Err(LinearizeError::UnreachableStatement);
            }
            proof {
                assert(decreases_to!(stmts => stmts[i as int]));
            }
            match self.build_statement(&stmts[i], labels) {
                Ok(left) => {
                    returned = left;
                },
                Err(k) => {
                    proof {
                        lemma_lin_stmts_fails(ss, (i + 1) as nat, ss.len(), s0);
                    }
                    return Err(k);
                },
            }
            i = i + 1;
        }
        Ok(returned)
    }

    /// Linearizes a block of the source into a sequence of basic blocks of
    /// its own, the first of which gets the given label. Afterwards the
    /// current block is the last block of the sequence.
    fn build_block(&mut self, b: &Block, label: String, labels: &StringGenerator) -> (r:
        Result<BlockReturn, LinearizeError>)
        ensures
            match lin_block(b@, old(self)@) {
                Ok((v, s)) => r == Ok::<BlockReturn, LinearizeError>(v) && final(self)@ == s,
                Err((k, s)) => r == Err::<BlockReturn, LinearizeError>(k) && final(self)@ == s,
            },
        decreases b, 1nat,
    {
        let first = self.new_block(label);
        self.at(first);
        let returned = match self.build_statements(&b.statements, labels) {
            Ok(r) => r,
            Err(k) => {
                return Err(k);
            },
        };
        if returned {
            return Ok(
                BlockReturn {
                    first_block: first,
                    last_block: self.current,
                    tail: BlockTail::Returned,
                },
            );
        }
        match self.build_opt_expr(&b.tail, labels) {
            Ok(v) => Ok(
                BlockReturn {
                    first_block: first,
                    last_block: self.current,
                    tail: match v {
                        Some(v) => BlockTail::Value(v),
                        None => BlockTail::NoValue,
                    },
                },
            ),
            Err(k) => Err(k),
        }
    }

    /// Linearizes an optional block.
    fn build_opt_block(&mut self, b: &Option<Box<Block>>, labels: &StringGenerator) -> (r:
        Result<Option<BlockReturn>, LinearizeError>)
        ensures
            match lin_opt_block(view_opt_block(*b), old(self)@) {
                Ok((v, s)) => r == Ok::<Option<BlockReturn>, LinearizeError>(v) && final(self)@
                    == s,
                Err((k, s)) => r == Err::<Option<BlockReturn>, LinearizeError>(k) && final(self)@ == s,
            },
        decreases b, 2nat,
    {
        match b {
            None => Ok(None),
            Some(b) => match self.build_block(&**b, fresh_label(labels), labels) {
                Ok(out) => Ok(Some(out)),
                Err(k) => Err(k),
            },
        }
    }

    /// Linearizes a block that stands as an expression.
    fn build_block_expr(&mut self, b: &Block, labels: &StringGenerator) -> (r: Result<
        Option<usize>,
        LinearizeError,
    >)
        ensures
            match lin_block_expr(b@, old(self)@) {
                Ok((v, s)) => r == Ok::<Option<usize>, LinearizeError>(v) && final(self)@ == s,
                Err((k, s)) => r == Err::<Option<usize>, LinearizeError>(k) && final(self)@ == s,
            },
        decreases b, 2nat,
    {
        let before = self.current;
        let out = match self.build_block(b, fresh_label(labels), labels) {
            Ok(out) => out,
            Err(k) => {
                return Err(k);
            },
        };
        self.terminate(before, Terminator::Branch(out.first_block));
        let cont = self.new_block(fresh_label(labels));
        match out.tail {
            BlockTail::Returned => {
                self.at(cont);
                Ok(None)
            },
            BlockTail::NoValue => {
                self.terminate(out.last_block, Terminator::Branch(cont));
                self.at(cont);
                Ok(None)
            },
            BlockTail::Value(v) => {
                self.terminate(out.last_block, Terminator::Branch(cont));
                self.at(cont);
                Ok(Some(v))
            },
        }
    }

    /// Joins the branches of a conditional in `next` and returns the value
    /// that reaches it.
    pub fn join_branches(
        &mut self,
        then_out: BlockReturn,
        else_out: BlockReturn,
        next: usize,
        how: Join,
    ) -> (r: Option<usize>)
        ensures
            (r, final(self)@) == joined(old(self)@, then_out, else_out, next, how),
    {
        if how.then_falls {
            self.terminate(then_out.last_block, Terminator::Branch(next));
        }
        if how.else_falls {
            self.terminate(else_out.last_block, Terminator::Branch(next));
        }
        self.at(next);
        match how.value {
            JoinValue::Nothing => None,
            JoinValue::One(v) => Some(v),
            JoinValue::Merge(a, b) => {
                let mut incoming: Vec<(usize, usize)> = Vec::new();
                incoming.push((a, then_out.last_block));
                incoming.push((b, else_out.last_block));
                assert(incoming@ =~= seq![(a, then_out.last_block), (b, else_out.last_block)]);
                Some(self.emit(Instruction::Phi(incoming)))
            },
        }
    }

    /// Linearizes a conditional.
    fn build_if(&mut self, i: &If, labels: &StringGenerator) -> (r: Result<
        Option<usize>,
        LinearizeError,
    >)
        ensures
            match lin_if(i@, old(self)@) {
                Ok((v, s)) => r == Ok::<Option<usize>, LinearizeError>(v) && final(self)@ == s,
                Err((k, s)) => r == Err::<Option<usize>, LinearizeError>(k) && final(self)@ == s,
            },
        decreases i, 3nat,
    {
        let cv = match self.build_expr(&*i.0, labels) {
            Ok(v) => v,
            Err(k) => {
                return Err(k);
            },
        };
        let cv = match need(cv) {
            Ok(v) => v,
            Err(k) => {
                return Err(k);
            },
        };
        let branching = self.current;
        let then_out = match self.build_block(&*i.1, fresh_label(labels), labels) {
            Ok(out) => out,
            Err(k) => {
                return Err(k);
            },
        };
        let else_out = match self.build_opt_block(&i.2, labels) {
            Ok(out) => out,
            Err(k) => {
                return Err(k);
            },
        };
        let next = self.new_block(fresh_label(labels));
        match else_out {
            Some(else_out) => {
                self.terminate(
                    branching,
                    Terminator::CondBranch(cv, then_out.first_block, else_out.first_block),
                );
                if tails_agree(then_out.tail, else_out.tail) {
                    let how = join_tails(then_out.tail, else_out.tail);
                    Ok(self.join_branches(then_out, else_out, next, how))
                } else {
                    Err(LinearizeError::BranchValueMismatch)
                }
            },
            None => {
                self.terminate(branching, Terminator::CondBranch(cv, then_out.first_block, next));
                match then_out.tail {
                    BlockTail::Returned => {
                        self.at(next);
                        Ok(None)
                    },
                    BlockTail::NoValue => {
                        self.terminate(then_out.last_block, Terminator::Branch(next));
                        self.at(next);
                        Ok(None)
                    },
                    BlockTail::Value(_) => Err(LinearizeError::ValueInSingleBranchIf),
                }
            },
        }
    }

    /// Linearizes a loop of the given type.
    fn build_loop(&mut self, ty: &Option<Type>, body: &Block, labels: &StringGenerator) -> (r:
        Result<Option<usize>, LinearizeError>)
        ensures
            match lin_loop(view_opt_type(*ty), body@, old(self)@) {
                Ok((v, s)) => r == Ok::<Option<usize>, LinearizeError>(v) && final(self)@ == s,
                Err((k, s)) => r == Err::<Option<usize>, LinearizeError>(k) && final(self)@ == s,
            },
        decreases body, 2nat,
    {
        let before = self.current;
        let cont = self.new_block(fresh_label(labels));
        let carries = match ty {
            Some(Type::Never) => false,
            Some(_) => true,
            None => false,
        };
        self.enter_loop(cont, carries);
        let out = match self.build_block(body, fresh_label(labels), labels) {
            Ok(out) => out,
            Err(k) => {
                let _ = self.leave_loop();
                return Err(k);
            },
        };
        self.terminate(before, Terminator::Branch(out.first_block));
        match out.tail {
            BlockTail::Returned => {},
            _ => {
                self.terminate(out.last_block, Terminator::Branch(out.first_block));
            },
        }
        let incoming = self.leave_loop();
        self.at(cont);
        if incoming.len() > 0 {
            Ok(Some(self.emit(Instruction::Phi(incoming))))
        } else {
            Ok(None)
        }
    }
}

impl Linearizer {
    /// Linearizes an expression into the current block and the blocks
    /// after it, and returns its value, if it yields one. The branches of
    /// every conditional in the expression have to agree on whether the
    /// conditional has a value.
    pub fn compile_expr(&mut self, e: &Expression, labels: &StringGenerator) -> (r: Result<
        Option<usize>,
        LinearizeError,
    >)
        requires
            agreeing(lin_expr(e@, old(self)@)),
        ensures
            match lin_expr(e@, old(self)@) {
                Ok((v, s)) => r == Ok::<Option<usize>, LinearizeError>(v) && final(self)@ == s,
                Err((k, s)) => r == Err::<Option<usize>, LinearizeError>(k) && final(self)@ == s
                    && !branch_error(k),
            },
    {
        self.build_expr(e, labels)
    }

    /// Linearizes a block of the source into a sequence of basic blocks of
    /// its own, the first of which gets the given label. Afterwards the
    /// current block is the last block of the sequence. The branches of
    /// every conditional in the block have to agree on whether the
    /// conditional has a value.
    pub fn compile_block(&mut self, b: &Block, label: String, labels: &StringGenerator) -> (r:
        Result<BlockReturn, LinearizeError>)
        requires
            agreeing(lin_block(b@, old(self)@)),
        ensures
            match lin_block(b@, old(self)@) {
                Ok((v, s)) => r == Ok::<BlockReturn, LinearizeError>(v) && final(self)@ == s,
                Err((k, s)) => r == Err::<BlockReturn, LinearizeError>(k) && final(self)@ == s
                    && !branch_error(k),
            },
    {
        self.build_block(b, label, labels)
    }
}

/// The slots of a function: those of its parameters, then those of the
/// locals that its body declares.
pub fn body_slots(params: &Vec<(String, Type)>, decls: &Vec<Decl>) -> (r: Result<
    Vec<Slot>,
    LinearizeError,
>)
    ensures
        match decl_slots(view_decls(decls@), decls@.len()) {
            Ok(locals) => r matches Ok(x) && view_slots(x@) == param_slots(view_params(params@))
                + locals,
            Err(k) => r matches Err(err) && err == k,
        },
{
    let mut slots: Vec<Slot> = Vec::new();
    let mut i: usize = 0;
    while i < params.len()
        invariant
            i <= params.len(),
            slots@.len() == i,
            forall|j: int|
                0 <= j < i ==> slots@[j].name@ == params@[j].0@ && slots@[j].ty@ == params@[j].1@,
        decreases params.len() - i,
    {
        slots.push(Slot { name: params[i].0.clone(), ty: params[i].1.clone() });
        i = i + 1;
    }
    let ghost ps = param_slots(view_params(params@));
    assert(view_slots(slots@) =~= ps);
    let ghost ds = view_decls(decls@);
    let ghost mut locals = Seq::<SlotView>::empty();
    assert(ps + locals =~= ps);
    let mut j: usize = 0;
    while j < decls.len()
        invariant
            j <= decls.len(),
            ps == param_slots(view_params(params@)),
            ds == view_decls(decls@),
            decl_slots(ds, j as nat) == Ok::<Seq<SlotView>, LinearizeError>(locals),
            view_slots(slots@) == ps + locals,
        decreases decls.len() - j,
    {
        match &decls[j].name {
            Ident::Local(name) => {
                let slot = Slot { name: name.clone(), ty: decls[j].ty.clone() };
                proof {
                    assert(view_slots(slots@.push(slot)) =~= view_slots(slots@).push(slot@));
                    assert((ps + locals).push(slot@) =~= ps + locals.push(slot@));
                    assert(ds[j as int] == decls@[j as int]@);
                    locals = locals.push(slot@);
                }
                slots.push(slot);
            },
            _ => {
                proof {
                    lemma_decl_slots_fails(ds, (j + 1) as nat, ds.len());
                }
                return Err(LinearizeError::UnsupportedPlace);
            },
        }
        j = j + 1;
    }
    Ok(slots)
}

impl Linearizer {
    /// The state in which the linearization of a function starts.
    pub fn new(params: usize, slots: Vec<Slot>, consts: usize) -> (r: Linearizer)
        ensures
            r@ == initial(params, view_slots(slots@), consts),
    {
        let r = Linearizer {
            graph: FnGraph { params, slots, insts: Vec::new(), blocks: Vec::new() },
            current: 0,
            loops: Vec::new(),
            consts,
        };
        assert(r@.graph.insts =~= Seq::empty());
        assert(r@.graph.blocks =~= Seq::empty());
        assert(r@.loops =~= Seq::empty());
        r
    }

    /// Writes the argument of each parameter to the slot that the name of
    /// the parameter stands for.
    pub fn store_params(&mut self, params: &Vec<(String, Type)>) -> (r: Result<(), LinearizeError>)
        ensures
            match lin_params(view_params(params@), params@.len(), old(self)@) {
                Ok(s) => r.is_ok() && final(self)@ == s,
                Err((k, s)) => r == Err::<(), LinearizeError>(k) && final(self)@ == s,
            },
    {
        let ghost s0 = self@;
        let ghost ps = view_params(params@);
        let mut i: usize = 0;
        while i < params.len()
            invariant
                i <= params.len(),
                s0 == old(self)@,
                ps == view_params(params@),
                lin_params(ps, i as nat, s0) == Ok::<LinState, (LinearizeError, LinState)>(self@),
            decreases params.len() - i,
        {
            let slot = match self.slot_named(&params[i].0) {
                Some(slot) => slot,
                None => {
                    proof {
                        lemma_lin_params_fails(ps, (i + 1) as nat, ps.len(), s0);
                    }
                    return Err(LinearizeError::UnknownLocal);
                },
            };
            let v = self.emit(Instruction::Param(i));
            let _ = self.emit(Instruction::Store(slot, None, v));
            i = i + 1;
        }
        Ok(())
    }

    /// Ends the function where the body falls through.
    pub fn finish(&mut self, start: usize, out: BlockReturn)
        ensures
            final(self)@ == finished(old(self)@, start, out),
    {
        self.terminate(start, Terminator::Branch(out.first_block));
        match out.tail {
            BlockTail::Returned => {},
            BlockTail::NoValue => {
                self.terminate(out.last_block, Terminator::Return(None));
            },
            BlockTail::Value(v) => {
                self.terminate(out.last_block, Terminator::Return(Some(v)));
            },
        }
    }
}

/// The label of the block in which a function starts.
fn start_label() -> (label: String)
    ensures
        label@ == "decl"@,
{
    "decl".to_owned()
}

/// The label of the first block of the body of a function.
fn body_label() -> (label: String)
    ensures
        label@ == "entry"@,
{
    "entry".to_owned()
}

impl FnGraph {
    /// The control-flow graph of a function with the given parameters and
    /// body, in a module whose constant pool has `consts` entries, or the
    /// inconsistency that linearization comes to first. The labels of the
    /// blocks are drawn from `labels`, but for the first two.
    fn build_fn_body(
        body: &FnBody,
        params: &Vec<(String, Type)>,
        consts: usize,
        labels: &StringGenerator,
    ) -> (r: Result<FnGraph, LinearizeError>)
        ensures
            match lin_fn_body(body@, view_params(params@), consts) {
                Ok(g) => r matches Ok(x) && x@ == g,
                Err(k) => r matches Err(err) && err == k,
            },
            r matches Ok(x) ==> closed(x@),
    {
        let count = params.len();
        proof {
            assert(view_params(params@).len() == count);
            law_graph_closed(body@, view_params(params@), consts);
        }
        let slots = match body_slots(params, &body.decls) {
            Ok(slots) => slots,
            Err(k) => {
                return Err(k);
            },
        };
        let mut lin = Linearizer::new(count, slots, consts);
        let start = lin.new_block(start_label());
        lin.at(start);
        match lin.store_params(params) {
            Ok(()) => {},
            Err(k) => {
                return Err(k);
            },
        }
        let out = match lin.build_block(&body.block, body_label(), labels) {
            Ok(out) => out,
            Err(k) => {
                return Err(k);
            },
        };
        lin.finish(start, out);
        Ok(lin.graph)
    }
}

impl FnGraph {
    /// Whether the branches of every conditional in the body of a function
    /// agree on whether the conditional has a value, as far as the
    /// linearization of the body gets. The body is linearized to find out.
    pub fn branches_agree(
        body: &FnBody,
        params: &Vec<(String, Type)>,
        consts: usize,
        labels: &StringGenerator,
    ) -> (r: bool)
        ensures
            r == agrees(lin_fn_body(body@, view_params(params@), consts)),
    {
        match FnGraph::build_fn_body(body, params, consts, labels) {
            Err(LinearizeError::BranchValueMismatch) => false,
            Err(LinearizeError::ValueInSingleBranchIf) => false,
            _ => true,
        }
    }

    /// The control-flow graph of a function with the given parameters and
    /// body, in a module whose constant pool has `consts` entries. The
    /// labels of the blocks are drawn from `labels`, but for the first two.
    /// The branches of every conditional in the body have to agree on
    /// whether the conditional has a value.
    pub fn compile_fn_body(
        body: &FnBody,
        params: &Vec<(String, Type)>,
        consts: usize,
        labels: &StringGenerator,
    ) -> (r: Result<FnGraph, LinearizeError>)
        requires
            agrees(lin_fn_body(body@, view_params(params@), consts)),
        ensures
            match lin_fn_body(body@, view_params(params@), consts) {
                Ok(g) => r matches Ok(x) && x@ == g,
                Err(k) => r matches Err(err) && err == k && !branch_error(k),
            },
            r matches Ok(x) ==> closed(x@),
    {
        FnGraph::build_fn_body(body, params, consts, labels)
    }
}

/// The control-flow graphs of a module.
#[derive(Debug)]
pub struct Program {
    /// One graph for each function that the module defines, in order.
    pub fn_defs: Vec<FnGraph>,
    /// The graph of the entry point.
    pub entry: Option<FnGraph>,
}

/// The models of a list of graphs, element by element.
pub open spec fn view_graphs(gs: Seq<FnGraph>) -> Seq<GraphView> {
    Seq::new(gs.len(), |i: int| gs[i]@)
}

impl Program {
    /// Whether every graph of the program is closed.
    pub open spec fn closed(&self) -> bool {
        &&& forall|j: int| 0 <= j < self.fn_defs@.len() ==> closed(#[trigger] self.fn_defs@[j]@)
        &&& self.entry matches Some(g) ==> closed(g@)
    }
}

impl View for Program {
    type V = ProgramView;

    open spec fn view(&self) -> ProgramView {
        ProgramView {
            fn_defs: view_graphs(self.fn_defs@),
            entry: match self.entry {
                Some(g) => Some(g@),
                None => None,
            },
        }
    }
}

/// The signature entered last under an identifier.
pub fn find_signature<'a>(decls: &'a Vec<DeclFn>, id: &Ident) -> (r: Option<&'a DeclFn>)
    ensures
        match signature_named(view_fn_decls(decls@), id@) {
            Some(sig) => r matches Some(d) && d@ == sig,
            None => r.is_none(),
        },
{
    let ghost ds = view_fn_decls(decls@);
    let mut i: usize = decls.len();
    assert(ds.take(i as int) =~= ds);
    while i > 0
        invariant
            i <= decls.len(),
            ds == view_fn_decls(decls@),
            signature_named(ds, id@) == signature_named(ds.take(i as int), id@),
        decreases i,
    {
        i = i - 1;
        assert(ds.take(i + 1).drop_last() =~= ds.take(i as int));
        if decls[i].id.same(id) {
            return Some(&decls[i]);
        }
    }
    None
}

impl Program {
    /// The control-flow graphs of a module: those of its functions, in
    /// order, then that of its entry point; or the inconsistency that
    /// linearization comes to first.
    fn build_lir_module(module: &Module, labels: &StringGenerator) -> (r: Result<
        Program,
        LinearizeError,
    >)
        ensures
            match lin_module(module@) {
                Ok(p) => r matches Ok(x) && x@ == p,
                Err(k) => r matches Err(err) && err == k,
            },
            r matches Ok(x) ==> x.closed(),
    {
        let consts = module.consts.len();
        let mut fn_defs: Vec<FnGraph> = Vec::new();
        let mut i: usize = 0;
        assert(view_graphs(fn_defs@) =~= Seq::empty());
        while i < module.fn_defs.len()
            invariant
                i <= module.fn_defs.len(),
                consts == module@.consts.len(),
                lin_fn_defs(module@, i as nat) == Ok::<Seq<GraphView>, LinearizeError>(
                    view_graphs(fn_defs@),
                ),
                forall|j: int| 0 <= j < fn_defs@.len() ==> closed(#[trigger] fn_defs@[j]@),
            decreases module.fn_defs.len() - i,
        {
            let def = &module.fn_defs[i];
            assert(module@.fn_defs[i as int] == def@);
            let sig = match find_signature(&module.fn_decls, &def.id) {
                Some(sig) => sig,
                None => {
                    proof {
                        lemma_lin_fn_defs_fails(module@, (i + 1) as nat, module@.fn_defs.len());
                    }
                    return Err(LinearizeError::UnknownFunction);
                },
            };
            match FnGraph::build_fn_body(&def.body, &sig.params, consts, labels) {
                Ok(g) => {
                    assert(view_graphs(fn_defs@.push(g)) =~= view_graphs(fn_defs@).push(g@));
                    fn_defs.push(g);
                },
                Err(k) => {
                    proof {
                        lemma_lin_fn_defs_fails(module@, (i + 1) as nat, module@.fn_defs.len());
                    }
                    return Err(k);
                },
            }
            i = i + 1;
        }
        match &module.entry {
            None => Ok(Program { fn_defs, entry: None }),
            Some(e) => {
                let none: Vec<(String, Type)> = Vec::new();
                assert(view_params(none@) =~= Seq::empty());
                match FnGraph::build_fn_body(&e.body, &none, consts, labels) {
                    Ok(g) => Ok(Program { fn_defs, entry: Some(g) }),
                    Err(k) => Err(k),
                }
            },
        }
    }
}

impl Program {
    /// Whether the branches of every conditional in a module agree on
    /// whether the conditional has a value, as far as the linearization of
    /// the module gets. The module is linearized to find out.
    pub fn branches_agree(module: &Module, labels: &StringGenerator) -> (r: bool)
        ensures
            r == agrees(lin_module(module@)),
    {
        match Program::build_lir_module(module, labels) {
            Err(LinearizeError::BranchValueMismatch) => false,
            Err(LinearizeError::ValueInSingleBranchIf) => false,
            _ => true,
        }
    }

    /// The control-flow graphs of a module: those of its functions, in
    /// order, then that of its entry point. The branches of every
    /// conditional in the module have to agree on whether the conditional
    /// has a value.
    pub fn compile_lir_module(module: &Module, labels: &StringGenerator) -> (r: Result<
        Program,
        LinearizeError,
    >)
        requires
            agrees(lin_module(module@)),
        ensures
            match lin_module(module@) {
                Ok(p) => r matches Ok(x) && x@ == p,
                Err(k) => r matches Err(err) && err == k && !branch_error(k),
            },
            r matches Ok(x) ==> x.closed(),
    {
        Program::build_lir_module(module, labels)
    }
}

} // verus!
