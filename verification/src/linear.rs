//! What linearization computes, as a mathematical function from a lowered
//! tree and the graph built so far to the graph afterwards.

use vstd::prelude::*;
use crate::cfg::{
    BasicBlockView, BlockReturn, BlockTail, GraphView, InstView, LinearizeError, SlotView,
    Terminator,
};
use crate::lir::{
    BlockView, DeclFnView, DeclView, ExprView, FnBodyView, IfView, LExprView, LValueView,
    ModuleView, StmtView, ValueView,
};
use crate::types::{IdentView, Op, TypeView};

verus! {

/// A loop whose body is being linearized.
pub struct FrameView {
    /// The block in which control goes on after the loop.
    pub cont: usize,
    /// Whether the `break`s of the loop carry a value.
    pub carries: bool,
    /// What the `break`s met so far carry, each with the block it leaves.
    pub incoming: Seq<(usize, usize)>,
}

/// The state of the linearization of one function.
pub struct LinState {
    pub graph: GraphView,
    /// The block that instructions are appended to.
    pub current: usize,
    /// The enclosing loops, innermost last.
    pub loops: Seq<FrameView>,
    /// The size of the constant pool.
    pub consts: usize,
}

/// The result of a step of linearization: what the step yields and the
/// state afterwards, or the inconsistency that was found and the state in
/// which it was found. Nothing is added to the graph once an inconsistency
/// is found, and a loop that was entered on the way to it is left.
pub type Lin<T> = Result<(T, LinState), (LinearizeError, LinState)>;

impl LinState {
    /// A new block is added to the graph; the result is its index.
    pub open spec fn new_block(self) -> (usize, LinState) {
        (
            self.graph.blocks.len() as usize,
            LinState {
                graph: GraphView {
                    blocks: self.graph.blocks.push(
                        BasicBlockView { insts: Seq::empty(), term: Terminator::Unreachable },
                    ),
                    ..self.graph
                },
                ..self
            },
        )
    }

    /// An instruction is appended to the current block; the result is the
    /// index of the instruction, by which its value is known.
    pub open spec fn emit(self, inst: InstView) -> (usize, LinState) {
        let id = self.graph.insts.len() as usize;
        let insts = self.graph.insts.push(inst);
        let blocks = if self.current < self.graph.blocks.len() {
            self.graph.blocks.update(
                self.current as int,
                BasicBlockView {
                    insts: self.graph.blocks[self.current as int].insts.push(id),
                    ..self.graph.blocks[self.current as int]
                },
            )
        } else {
            self.graph.blocks
        };
        (id, LinState { graph: GraphView { insts, blocks, ..self.graph }, ..self })
    }

    /// A block gets its terminator.
    pub open spec fn terminate(self, block: usize, term: Terminator) -> LinState {
        if block < self.graph.blocks.len() {
            LinState {
                graph: GraphView {
                    blocks: self.graph.blocks.update(
                        block as int,
                        BasicBlockView { term, ..self.graph.blocks[block as int] },
                    ),
                    ..self.graph
                },
                ..self
            }
        } else {
            self
        }
    }

    /// Instructions go to the given block from now on.
    pub open spec fn at(self, block: usize) -> LinState {
        LinState { current: block, ..self }
    }

    /// A loop is entered that goes on in `cont`.
    pub open spec fn enter_loop(self, cont: usize, carries: bool) -> LinState {
        LinState {
            loops: self.loops.push(FrameView { cont, carries, incoming: Seq::empty() }),
            ..self
        }
    }

    /// The innermost loop is left. The result is what its `break`s carried,
    /// if they carry a value and there was one.
    pub open spec fn leave_loop(self) -> (Seq<(usize, usize)>, LinState) {
        if self.loops.len() == 0 {
            (Seq::empty(), self)
        } else {
            (
                if self.loops.last().carries {
                    self.loops.last().incoming
                } else {
                    Seq::empty()
                },
                LinState { loops: self.loops.drop_last(), ..self }
            )
        }
    }

    /// A `break` leaves the innermost loop from the current block: the
    /// block branches to where the loop goes on, and hands over the value
    /// if the loop carries one.
    pub open spec fn leave_by_break(self, value: Option<usize>) -> Result<
        LinState,
        LinearizeError,
    > {
        if self.loops.len() == 0 {
            Err(LinearizeError::BreakOutsideLoop)
        } else {
            let frame = self.loops.last();
            if frame.carries && value.is_none() {
                Err(LinearizeError::MissingValue)
            } else {
                let incoming = if frame.carries {
                    frame.incoming.push((value.unwrap(), self.current))
                } else {
                    frame.incoming
                };
                Ok(
                    LinState {
                        loops: self.loops.update(
                            self.loops.len() - 1,
                            FrameView { incoming, ..frame },
                        ),
                        ..self
                    }.terminate(self.current, Terminator::Branch(frame.cont)),
                )
            }
        }
    }
}

/// The slot that a name stands for: the last one of that name.
pub open spec fn slot_named(slots: Seq<SlotView>, name: Seq<char>) -> Option<usize>
    decreases slots.len(),
{
    if slots.len() == 0 {
        None
    } else if slots.last().name == name {
        Some((slots.len() - 1) as usize)
    } else {
        slot_named(slots.drop_last(), name)
    }
}

/// The slot of a place. Only a local has one.
pub open spec fn place_slot(place: LExprView, slots: Seq<SlotView>) -> Result<
    usize,
    LinearizeError,
> {
    match place.value {
        LValueView::Var(IdentView::Local(name)) => match slot_named(slots, name) {
            Some(slot) => Ok(slot),
            None => Err(LinearizeError::UnknownLocal),
        },
        LValueView::Var(_) => Err(LinearizeError::UnsupportedPlace),
    }
}

/// What reaches the block after a conditional with two branches.
#[derive(Debug, Clone, Copy, PartialEq, Eq, Structural)]
pub enum JoinValue {
    /// No value.
    Nothing,
    /// The value of the only branch that falls through.
    One(usize),
    /// The value of the first branch or that of the second, by the branch
    /// that control came from: a merge point is needed.
    Merge(usize, usize),
}

/// How the two branches of a conditional are joined.
#[derive(Debug, Clone, Copy, PartialEq, Eq, Structural)]
pub struct Join {
    /// Whether the then-branch falls through to the block after.
    pub then_falls: bool,
    /// Whether the else-branch falls through to the block after.
    pub else_falls: bool,
    pub value: JoinValue,
}

/// How the branches of a conditional are joined, by how control leaves each
/// of them. A branch that has returned does not reach the block after. If
/// both fall through they carry a value both or neither; a merge point is
/// needed exactly if both carry one.
pub open spec fn join(then_tail: BlockTail, else_tail: BlockTail) -> Result<Join, LinearizeError> {
    match (then_tail, else_tail) {
        (BlockTail::Returned, BlockTail::Returned) => Ok(
            Join { then_falls: false, else_falls: false, value: JoinValue::Nothing },
        ),
        (BlockTail::Returned, BlockTail::NoValue) => Ok(
            Join { then_falls: false, else_falls: true, value: JoinValue::Nothing },
        ),
        (BlockTail::Returned, BlockTail::Value(v)) => Ok(
            Join { then_falls: false, else_falls: true, value: JoinValue::One(v) },
        ),
        (BlockTail::NoValue, BlockTail::Returned) => Ok(
            Join { then_falls: true, else_falls: false, value: JoinValue::Nothing },
        ),
        (BlockTail::NoValue, BlockTail::NoValue) => Ok(
            Join { then_falls: true, else_falls: true, value: JoinValue::Nothing },
        ),
        (BlockTail::Value(v), BlockTail::Returned) => Ok(
            Join { then_falls: true, else_falls: false, value: JoinValue::One(v) },
        ),
        (BlockTail::Value(a), BlockTail::Value(b)) => Ok(
            Join { then_falls: true, else_falls: true, value: JoinValue::Merge(a, b) },
        ),
        (BlockTail::NoValue, BlockTail::Value(_)) | (BlockTail::Value(_), BlockTail::NoValue) => Err(
            LinearizeError::BranchValueMismatch,
        ),
    }
}

/// The branches of a conditional are joined as follows. A branch that has
/// returned does not reach the block after the conditional; if both have
/// returned, nothing does. If one branch falls through, what it carries
/// reaches the block after as it is. If both fall through without a value,
/// no value reaches it. If both fall through with a value, the two values
/// are merged. That one falls through with a value and the other without
/// is the one inconsistency.
pub proof fn law_join(then_tail: BlockTail, else_tail: BlockTail)
    ensures
        join(then_tail, else_tail) matches Ok(how) ==> {
            &&& how.then_falls == (then_tail != BlockTail::Returned)
            &&& how.else_falls == (else_tail != BlockTail::Returned)
            &&& how.value is Merge <==> then_tail is Value && else_tail is Value
            &&& how.value matches JoinValue::Merge(a, b) ==> then_tail == BlockTail::Value(a)
                && else_tail == BlockTail::Value(b)
            &&& how.value matches JoinValue::One(v) ==> (then_tail == BlockTail::Value(v)
                && else_tail == BlockTail::Returned) || (then_tail == BlockTail::Returned
                && else_tail == BlockTail::Value(v))
            &&& how.value is Nothing <==> !(then_tail is Value) && !(else_tail is Value)
        },
        join(then_tail, else_tail).is_err() <==> (then_tail is Value && else_tail is NoValue) || (
        then_tail is NoValue && else_tail is Value),
        join(then_tail, else_tail) matches Err(k) ==> k == LinearizeError::BranchValueMismatch,
{
}

/// The two ways in which the branches of a conditional can disagree on
/// the value of the conditional: one branch of two falls through with a
/// value and the other without, or the one branch of a conditional without
/// an else-branch falls through with a value. A tree in which a
/// conditional is so is not to be linearized.
pub open spec fn branch_error(k: LinearizeError) -> bool {
    k is BranchValueMismatch || k is ValueInSingleBranchIf
}

/// Whether the branches of every conditional that a step of linearization
/// came to agree.
pub open spec fn agreeing<T>(r: Lin<T>) -> bool {
    r matches Err((k, _)) ==> !branch_error(k)
}

/// Whether the branches of every conditional that the linearization of a
/// function or a module came to agree.
pub open spec fn agrees<T>(r: Result<T, LinearizeError>) -> bool {
    r matches Err(k) ==> !branch_error(k)
}

/// The value of an expression that has to have one.
pub open spec fn needed(value: Option<usize>) -> Result<usize, LinearizeError> {
    match value {
        Some(v) => Ok(v),
        None => Err(LinearizeError::MissingValue),
    }
}

/// Linearizes an expression into the current block and the blocks after
/// it. The result is the value of the expression, if it yields one. The
/// operands of a binary operator are linearized left to right, and each has
/// to yield a value.
pub open spec fn lin_expr(e: ExprView, s: LinState) -> Lin<Option<usize>>
    decreases e, 0nat,
{
    match e.value {
        ValueView::ConstInt(n) => {
            let (v, s1) = s.emit(InstView::ConstInt(n));
            Ok((Some(v), s1))
        },
        ValueView::ConstStr(i) => if i < s.consts {
            let (v, s1) = s.emit(InstView::ConstStr(i));
            Ok((Some(v), s1))
        } else {
            Err((LinearizeError::UnknownConstant, s))
        },
        ValueView::LExpr(place) => match place_slot(place, s.graph.slots) {
            Err(k) => Err((k, s)),
            Ok(slot) => {
                let (v, s1) = s.emit(InstView::Load(slot));
                Ok((Some(v), s1))
            },
        },
        ValueView::Assign(op, place, value) => lin_assign(op, place, *value, s),
        ValueView::Op(op, l, r) => match lin_expr(*l, s) {
            Err(k) => Err(k),
            Ok((lv, s1)) => match needed(lv) {
                Err(k) => Err((k, s1)),
                Ok(lv) => match lin_expr(*r, s1) {
                    Err(k) => Err(k),
                    Ok((rv, s2)) => match needed(rv) {
                        Err(k) => Err((k, s2)),
                        Ok(rv) => {
                            let (v, s3) = s2.emit(InstView::Op(op, lv, rv));
                            Ok((Some(v), s3))
                        },
                    },
                },
            },
        },
        ValueView::CallConcrete(callee, args) => lin_call(callee, args, e.ty.is_some(), s),
        ValueView::Block(b) => lin_block_expr(*b, s),
        ValueView::If(i) => lin_if(i, s),
        ValueView::Loop(b) => lin_loop(e.ty, *b, s),
    }
}

/// Linearizes an optional expression.
pub open spec fn lin_opt_expr(e: Option<ExprView>, s: LinState) -> Lin<Option<usize>>
    decreases e, 1nat,
{
    match e {
        None => Ok((None, s)),
        Some(e) => lin_expr(e, s),
    }
}

/// Linearizes an assignment. The assigned value is computed first, and is
/// the value of the assignment. An operator is handed on with the store.
pub open spec fn lin_assign(op: Option<Op>, place: LExprView, value: ExprView, s: LinState) -> Lin<
    Option<usize>,
>
    decreases value, 1nat,
{
    match lin_expr(value, s) {
        Err(k) => Err(k),
        Ok((v, s1)) => match needed(v) {
            Err(k) => Err((k, s1)),
            Ok(v) => match place_slot(place, s1.graph.slots) {
                Err(k) => Err((k, s1)),
                Ok(slot) => Ok((Some(v), s1.emit(InstView::Store(slot, op, v)).1)),
            },
        },
    }
}

/// Linearizes the first `n` arguments of a call, in order. Each has to
/// yield a value.
pub open spec fn lin_args(args: Seq<ExprView>, n: nat, s: LinState) -> Lin<Seq<usize>>
    decreases args, n,
{
    if n == 0 || n > args.len() {
        Ok((Seq::empty(), s))
    } else {
        match lin_args(args, (n - 1) as nat, s) {
            Err(k) => Err(k),
            Ok((done, s1)) => match lin_expr(args[n - 1], s1) {
                Err(k) => Err(k),
                Ok((v, s2)) => match needed(v) {
                    Err(k) => Err((k, s2)),
                    Ok(v) => Ok((done.push(v), s2)),
                },
            },
        }
    }
}

/// Linearizes a call: the arguments in order, then the call. The call
/// yields a value exactly if the function returns one.
pub open spec fn lin_call(callee: IdentView, args: Seq<ExprView>, yields: bool, s: LinState) -> Lin<
    Option<usize>,
>
    decreases args, args.len() + 1,
{
    match lin_args(args, args.len(), s) {
        Err(k) => Err(k),
        Ok((values, s1)) => {
            let (v, s2) = s1.emit(InstView::Call(callee, values));
            Ok(
                (
                    if yields {
                        Some(v)
                    } else {
                        None
                    },
                    s2,
                ),
            )
        },
    }
}

/// Linearizes a block of the source into a sequence of basic blocks of
/// its own. Its statements become one straight line; how control leaves
/// it is how control leaves its tail. Afterwards the current block is the
/// last block of the sequence.
pub open spec fn lin_block(b: BlockView, s: LinState) -> Lin<BlockReturn>
    decreases b, 1nat,
{
    let (first, s1) = s.new_block();
    match lin_stmts(b.statements, b.statements.len(), s1.at(first)) {
        Err(k) => Err(k),
        Ok((returned, s2)) => if returned {
            Ok(
                (
                    BlockReturn {
                        first_block: first,
                        last_block: s2.current,
                        tail: BlockTail::Returned,
                    },
                    s2,
                ),
            )
        } else {
            match lin_opt_expr(b.tail, s2) {
                Err(k) => Err(k),
                Ok((v, s3)) => Ok(
                    (
                        BlockReturn {
                            first_block: first,
                            last_block: s3.current,
                            tail: match v {
                                Some(v) => BlockTail::Value(v),
                                None => BlockTail::NoValue,
                            },
                        },
                        s3,
                    ),
                ),
            }
        },
    }
}

/// Linearizes the first `n` statements of a block. The result tells
/// whether control has left by the last of them. A statement after one by
/// which control has left is rejected.
pub open spec fn lin_stmts(ss: Seq<StmtView>, n: nat, s: LinState) -> Lin<bool>
    decreases ss, n,
{
    if n == 0 || n > ss.len() {
        Ok((false, s))
    } else {
        match lin_stmts(ss, (n - 1) as nat, s) {
            Err(k) => Err(k),
            Ok((returned, s1)) => if returned {
                Err((LinearizeError::UnreachableStatement, s1))
            } else {
                lin_stmt(ss[n - 1], s1)
            },
        }
    }
}

/// Linearizes a statement. The result tells whether control leaves by it.
pub open spec fn lin_stmt(st: StmtView, s: LinState) -> Lin<bool>
    decreases st, 2nat,
{
    match st {
        StmtView::Eval(e) => match lin_expr(e, s) {
            Err(k) => Err(k),
            Ok((_, s1)) => Ok((false, s1)),
        },
        StmtView::Return(e) => match lin_opt_expr(e, s) {
            Err(k) => Err(k),
            Ok((v, s1)) => if e.is_some() && v.is_none() {
                Err((LinearizeError::MissingValue, s1))
            } else {
                Ok((true, s1.terminate(s1.current, Terminator::Return(v))))
            },
        },
        StmtView::Decl(name, e) => match slot_named(s.graph.slots, name) {
            None => Err((LinearizeError::UnknownLocal, s)),
            Some(slot) => match lin_expr(e, s) {
                Err(k) => Err(k),
                Ok((v, s1)) => match needed(v) {
                    Err(k) => Err((k, s1)),
                    Ok(v) => Ok((false, s1.emit(InstView::Store(slot, None, v)).1)),
                },
            },
        },
        StmtView::Break(e) => match lin_opt_expr(e, s) {
            Err(k) => Err(k),
            Ok((v, s1)) => match s1.leave_by_break(v) {
                Err(k) => Err((k, s1)),
                Ok(s2) => Ok((true, s2)),
            },
        },
    }
}

/// Linearizes a block that stands as an expression: the current block
/// branches into it, and control goes on in a new block that it falls
/// through to, with the value that it carries.
pub open spec fn lin_block_expr(b: BlockView, s: LinState) -> Lin<Option<usize>>
    decreases b, 2nat,
{
    match lin_block(b, s) {
        Err(k) => Err(k),
        Ok((out, s1)) => {
            let s2 = s1.terminate(s.current, Terminator::Branch(out.first_block));
            let (cont, s3) = s2.new_block();
            match out.tail {
                BlockTail::Returned => Ok((None, s3.at(cont))),
                BlockTail::NoValue => Ok(
                    (None, s3.terminate(out.last_block, Terminator::Branch(cont)).at(cont)),
                ),
                BlockTail::Value(v) => Ok(
                    (Some(v), s3.terminate(out.last_block, Terminator::Branch(cont)).at(cont)),
                ),
            }
        },
    }
}

/// Linearizes an optional block.
pub open spec fn lin_opt_block(b: Option<Box<BlockView>>, s: LinState) -> Lin<Option<BlockReturn>>
    decreases b, 2nat,
{
    match b {
        None => Ok((None, s)),
        Some(b) => match lin_block(*b, s) {
            Err(k) => Err(k),
            Ok((out, s1)) => Ok((Some(out), s1)),
        },
    }
}

/// The state after the branches of a conditional are joined in `next`,
/// and the value that reaches it.
pub open spec fn joined(
    s: LinState,
    then_out: BlockReturn,
    else_out: BlockReturn,
    next: usize,
    how: Join,
) -> (Option<usize>, LinState) {
    let s1 = if how.then_falls {
        s.terminate(then_out.last_block, Terminator::Branch(next))
    } else {
        s
    };
    let s2 = if how.else_falls {
        s1.terminate(else_out.last_block, Terminator::Branch(next))
    } else {
        s1
    };
    let s3 = s2.at(next);
    match how.value {
        JoinValue::Nothing => (None, s3),
        JoinValue::One(v) => (Some(v), s3),
        JoinValue::Merge(a, b) => {
            let (v, s4) = s3.emit(
                InstView::Phi(seq![(a, then_out.last_block), (b, else_out.last_block)]),
            );
            (Some(v), s4)
        },
    }
}

/// Linearizes a conditional. The block that holds the condition branches
/// on it to the two branches, which are linearized one after the other and
/// joined in a new block; without an else-branch it branches to the
/// then-branch or straight to the new block.
pub open spec fn lin_if(i: IfView, s: LinState) -> Lin<Option<usize>>
    decreases i, 3nat,
{
    match lin_expr(*i.cond, s) {
        Err(k) => Err(k),
        Ok((cv, s1)) => match needed(cv) {
            Err(k) => Err((k, s1)),
            Ok(cv) => match lin_block(*i.then_block, s1) {
                Err(k) => Err(k),
                Ok((then_out, s2)) => match lin_opt_block(i.else_block, s2) {
                    Err(k) => Err(k),
                    Ok((else_out, s3)) => {
                        let (next, s4) = s3.new_block();
                        match else_out {
                            Some(else_out) => {
                                let s5 = s4.terminate(
                                    s1.current,
                                    Terminator::CondBranch(
                                        cv,
                                        then_out.first_block,
                                        else_out.first_block,
                                    ),
                                );
                                match join(then_out.tail, else_out.tail) {
                                    Err(k) => Err((k, s5)),
                                    Ok(how) => Ok(joined(s5, then_out, else_out, next, how)),
                                }
                            },
                            None => {
                                let s5 = s4.terminate(
                                    s1.current,
                                    Terminator::CondBranch(cv, then_out.first_block, next),
                                );
                                match then_out.tail {
                                    BlockTail::Returned => Ok((None, s5.at(next))),
                                    BlockTail::NoValue => Ok(
                                        (
                                            None,
                                            s5.terminate(
                                                then_out.last_block,
                                                Terminator::Branch(next),
                                            ).at(next),
                                        ),
                                    ),
                                    BlockTail::Value(_) => Err(
                                        (LinearizeError::ValueInSingleBranchIf, s5),
                                    ),
                                }
                            },
                        }
                    },
                }
            },
        },
    }
}

/// Whether the `break`s of a loop of the given type carry a value.
pub open spec fn carries_value(ty: Option<TypeView>) -> bool {
    ty.is_some() && ty != Some(TypeView::Never)
}

/// Linearizes a loop. The current block branches into the body, and the
/// body, where it falls through, branches back to its own start. Every
/// `break` in the body branches to the block in which control goes on
/// after the loop. If the loop has a value, that block starts with a
/// merge point of what the `break`s carry; if no `break` was met, nothing
/// leads to that block.
pub open spec fn lin_loop(ty: Option<TypeView>, body: BlockView, s: LinState) -> Lin<Option<usize>>
    decreases body, 2nat,
{
    let (cont, s1) = s.new_block();
    match lin_block(body, s1.enter_loop(cont, carries_value(ty))) {
        Err((k, s2)) => Err((k, s2.leave_loop().1)),
        Ok((out, s2)) => {
            let s3 = s2.terminate(s.current, Terminator::Branch(out.first_block));
            let s4 = if out.tail == BlockTail::Returned {
                s3
            } else {
                s3.terminate(out.last_block, Terminator::Branch(out.first_block))
            };
            let (incoming, s5) = s4.leave_loop();
            let s6 = s5.at(cont);
            if incoming.len() > 0 {
                let (v, s7) = s6.emit(InstView::Phi(incoming));
                Ok((Some(v), s7))
            } else {
                Ok((None, s6))
            }
        },
    }
}

/// The slots of the parameters of a function, one for each, in order.
pub open spec fn param_slots(params: Seq<(Seq<char>, TypeView)>) -> Seq<SlotView> {
    Seq::new(params.len(), |i: int| SlotView { name: params[i].0, ty: params[i].1 })
}

/// The slots of the first `n` locals that a body declares, in order.
pub open spec fn decl_slots(decls: Seq<DeclView>, n: nat) -> Result<Seq<SlotView>, LinearizeError>
    decreases n,
{
    if n == 0 || n > decls.len() {
        Ok(Seq::empty())
    } else {
        match decl_slots(decls, (n - 1) as nat) {
            Err(k) => Err(k),
            Ok(done) => match decls[n - 1].name {
                IdentView::Local(name) => Ok(done.push(SlotView { name, ty: decls[n - 1].ty })),
                _ => Err(LinearizeError::UnsupportedPlace),
            },
        }
    }
}

/// The start of a function: the arguments of the first `n` parameters are
/// written to the slots that the names of the parameters stand for.
pub open spec fn lin_params(params: Seq<(Seq<char>, TypeView)>, n: nat, s: LinState) -> Result<
    LinState,
    (LinearizeError, LinState),
>
    decreases n,
{
    if n == 0 || n > params.len() {
        Ok(s)
    } else {
        match lin_params(params, (n - 1) as nat, s) {
            Err(k) => Err(k),
            Ok(s1) => match slot_named(s1.graph.slots, params[n - 1].0) {
                None => Err((LinearizeError::UnknownLocal, s1)),
                Some(slot) => {
                    let (v, s2) = s1.emit(InstView::Param((n - 1) as usize));
                    Ok(s2.emit(InstView::Store(slot, None, v)).1)
                },
            },
        }
    }
}

/// The state in which the linearization of a function starts: the slots
/// are there, the graph is empty.
pub open spec fn initial(params: usize, slots: Seq<SlotView>, consts: usize) -> LinState {
    LinState {
        graph: GraphView { params, slots, insts: Seq::empty(), blocks: Seq::empty() },
        current: 0,
        loops: Seq::empty(),
        consts,
    }
}

/// The state after the function ends where the body falls through: it
/// returns the value that the body carries, or nothing.
pub open spec fn finished(s: LinState, start: usize, out: BlockReturn) -> LinState {
    let s1 = s.terminate(start, Terminator::Branch(out.first_block));
    match out.tail {
        BlockTail::Returned => s1,
        BlockTail::NoValue => s1.terminate(out.last_block, Terminator::Return(None)),
        BlockTail::Value(v) => s1.terminate(out.last_block, Terminator::Return(Some(v))),
    }
}

/// The control-flow graph of a function with the given parameters and
/// body. Block 0 stores the arguments and branches into the body.
pub open spec fn lin_fn_body(
    body: FnBodyView,
    params: Seq<(Seq<char>, TypeView)>,
    consts: usize,
) -> Result<GraphView, LinearizeError> {
    match decl_slots(body.decls, body.decls.len()) {
        Err(k) => Err(k),
        Ok(locals) => {
            let (start, s1) = initial(
                params.len() as usize,
                param_slots(params) + locals,
                consts,
            ).new_block();
            match lin_params(params, params.len(), s1.at(start)) {
                Err((k, _)) => Err(k),
                Ok(s2) => match lin_block(body.block, s2) {
                    Err((k, _)) => Err(k),
                    Ok((out, s3)) => Ok(finished(s3, start, out).graph),
                },
            }
        },
    }
}

/// The signature entered last under an identifier.
pub open spec fn signature_named(decls: Seq<DeclFnView>, id: IdentView) -> Option<DeclFnView>
    decreases decls.len(),
{
    if decls.len() == 0 {
        None
    } else if decls.last().id == id {
        Some(decls.last())
    } else {
        signature_named(decls.drop_last(), id)
    }
}

/// The control-flow graphs of the first `n` functions that a module
/// defines, in order. Each is linearized with the parameters of its
/// signature.
pub open spec fn lin_fn_defs(m: ModuleView, n: nat) -> Result<Seq<GraphView>, LinearizeError>
    decreases n,
{
    if n == 0 || n > m.fn_defs.len() {
        Ok(Seq::empty())
    } else {
        match lin_fn_defs(m, (n - 1) as nat) {
            Err(k) => Err(k),
            Ok(done) => match signature_named(m.fn_decls, m.fn_defs[n - 1].id) {
                None => Err(LinearizeError::UnknownFunction),
                Some(sig) => match lin_fn_body(
                    m.fn_defs[n - 1].body,
                    sig.params,
                    m.consts.len() as usize,
                ) {
                    Err(k) => Err(k),
                    Ok(g) => Ok(done.push(g)),
                },
            },
        }
    }
}

/// The control-flow graphs of a module.
pub struct ProgramView {
    /// One graph for each function that the module defines, in order.
    pub fn_defs: Seq<GraphView>,
    /// The graph of the entry point.
    pub entry: Option<GraphView>,
}

/// The control-flow graphs of a module: those of its functions, then that
/// of its entry point, which has no parameters.
pub open spec fn lin_module(m: ModuleView) -> Result<ProgramView, LinearizeError> {
    match lin_fn_defs(m, m.fn_defs.len()) {
        Err(k) => Err(k),
        Ok(fn_defs) => match m.entry {
            None => Ok(ProgramView { fn_defs, entry: None }),
            Some(e) => match lin_fn_body(e.body, Seq::empty(), m.consts.len() as usize) {
                Err(k) => Err(k),
                Ok(g) => Ok(ProgramView { fn_defs, entry: Some(g) }),
            },
        },
    }
}

/// Once a prefix of the arguments fails to linearize, so does every longer
/// prefix, with the same error.
pub proof fn lemma_lin_args_fails(args: Seq<ExprView>, n: nat, m: nat, s: LinState)
    requires
        n <= m <= args.len(),
        lin_args(args, n, s).is_err(),
    ensures
        lin_args(args, m, s) == lin_args(args, n, s),
    decreases m,
{
    if n < m {
        lemma_lin_args_fails(args, n, (m - 1) as nat, s);
    }
}

/// Once a prefix of the statements fails to linearize, so does every
/// longer prefix, with the same error.
pub proof fn lemma_lin_stmts_fails(ss: Seq<StmtView>, n: nat, m: nat, s: LinState)
    requires
        n <= m <= ss.len(),
        lin_stmts(ss, n, s).is_err(),
    ensures
        lin_stmts(ss, m, s) == lin_stmts(ss, n, s),
    decreases m,
{
    if n < m {
        lemma_lin_stmts_fails(ss, n, (m - 1) as nat, s);
    }
}

/// Once a prefix of the locals fails, so does every longer prefix, with the
/// same error.
pub proof fn lemma_decl_slots_fails(decls: Seq<DeclView>, n: nat, m: nat)
    requires
        n <= m <= decls.len(),
        decl_slots(decls, n).is_err(),
    ensures
        decl_slots(decls, m) == decl_slots(decls, n),
    decreases m,
{
    if n < m {
        lemma_decl_slots_fails(decls, n, (m - 1) as nat);
    }
}

/// Once a prefix of the parameters fails, so does every longer prefix,
/// with the same error.
pub proof fn lemma_lin_params_fails(
    params: Seq<(Seq<char>, TypeView)>,
    n: nat,
    m: nat,
    s: LinState,
)
    requires
        n <= m <= params.len(),
        lin_params(params, n, s).is_err(),
    ensures
        lin_params(params, m, s) == lin_params(params, n, s),
    decreases m,
{
    if n < m {
        lemma_lin_params_fails(params, n, (m - 1) as nat, s);
    }
}

/// Once a prefix of the functions fails, so does every longer prefix, with
/// the same error.
pub proof fn lemma_lin_fn_defs_fails(m: ModuleView, n: nat, k: nat)
    requires
        n <= k <= m.fn_defs.len(),
        lin_fn_defs(m, n).is_err(),
    ensures
        lin_fn_defs(m, k) == lin_fn_defs(m, n),
    decreases k,
{
    if n < k {
        lemma_lin_fn_defs_fails(m, n, (k - 1) as nat);
    }
}


/// A `return` and a `break` are the statements by which control leaves a
/// block, and they always do.
pub proof fn law_control_leaves(st: StmtView, s: LinState)
    ensures
        lin_stmt(st, s) matches Ok((left, _)) ==> left == (st is Return || st is Break),
{
}

/// A block in which a statement follows a `return` or a `break` is never
/// linearized: it is rejected, and if the statements up to the `return` or
/// `break` are consistent, it is rejected for the unreachable statement.
/// The graph is then left as it was after the `return` or `break`: what
/// follows is not linearized, not an instruction of it.
pub proof fn law_statement_after_return_rejected(b: BlockView, i: int, s: LinState)
    requires
        0 <= i < b.statements.len() - 1,
        b.statements[i] is Return || b.statements[i] is Break,
    ensures
        lin_block(b, s).is_err(),
        lin_stmts(
            b.statements,
            (i + 1) as nat,
            s.new_block().1.at(s.new_block().0),
        ) matches Ok((_, left)) ==> lin_block(b, s) == Err::<
            (BlockReturn, LinState),
            (LinearizeError, LinState),
        >((LinearizeError::UnreachableStatement, left)),
{
    let ss = b.statements;
    let s1 = s.new_block().1.at(s.new_block().0);
    if let Ok((_, left)) = lin_stmts(ss, (i + 1) as nat, s1) {
        let before = lin_stmts(ss, i as nat, s1);
        assert(before.is_ok());
        law_control_leaves(ss[i], (before->Ok_0).1);
        assert(lin_stmts(ss, (i + 2) as nat, s1) == Err::<
            (bool, LinState),
            (LinearizeError, LinState),
        >((LinearizeError::UnreachableStatement, left)));
        lemma_lin_stmts_fails(ss, (i + 2) as nat, ss.len(), s1);
    } else {
        lemma_lin_stmts_fails(ss, (i + 1) as nat, ss.len(), s1);
    }
}

/// What follows a `return` as the tail of the block is not linearized: the
/// graph is the one of the statements alone, and control has left.
pub proof fn law_tail_after_return_is_dead(b: BlockView, s: LinState)
    requires
        b.statements.len() > 0,
        b.statements.last() is Return || b.statements.last() is Break,
    ensures
        lin_block(b, s) == lin_block(BlockView { tail: None, ..b }, s),
        lin_block(b, s) matches Ok((out, _)) ==> out.tail == BlockTail::Returned,
{
    let ss = b.statements;
    let s1 = s.new_block().1.at(s.new_block().0);
    if lin_stmts(ss, ss.len(), s1).is_ok() {
        let before = lin_stmts(ss, (ss.len() - 1) as nat, s1);
        assert(before.is_ok());
        law_control_leaves(ss.last(), (before->Ok_0).1);
    }
}

} // verus!
