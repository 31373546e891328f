//! The graphs that linearization builds are closed: whatever an
//! instruction or a terminator refers to is there, and every value is
//! computed by an instruction that stands before the one that uses it.

use vstd::prelude::*;
use crate::cfg::{
    BasicBlockView, BlockReturn, BlockTail, GraphView, InstView, LinearizeError, SlotView,
    Terminator,
};
use crate::linear::{
    FrameView, Join, JoinValue, LinState, decl_slots, finished, initial, join, joined, lin_args,
    lin_assign, lin_block, lin_block_expr, lin_call, lin_expr, lin_fn_body, lin_if, lin_loop,
    lin_opt_block, lin_opt_expr, lin_params, lin_stmt, lin_stmts, param_slots, place_slot,
    slot_named,
};
use crate::lir::{BlockView, ExprView, FnBodyView, IfView, LExprView, StmtView, ValueView};
use crate::types::{Op, TypeView};

verus! {

/// Whether the instruction with index `index` refers only to what is
/// there: to slots and parameters of the function, to blocks of the graph,
/// and to values of instructions before it.
pub open spec fn inst_closed(inst: InstView, index: int, params: int, slots: int, blocks: int)
    -> bool {
    match inst {
        InstView::Param(i) => i < params,
        InstView::ConstInt(_) => true,
        InstView::ConstStr(_) => true,
        InstView::Load(slot) => slot < slots,
        InstView::Store(slot, _, v) => slot < slots && v < index,
        InstView::Op(_, l, r) => l < index && r < index,
        InstView::Call(_, args) => forall|k: int| 0 <= k < args.len() ==> args[k] < index,
        InstView::Phi(incoming) => forall|k: int|
            0 <= k < incoming.len() ==> (#[trigger] incoming[k]).0 < index && incoming[k].1
                < blocks,
    }
}

/// Whether a terminator refers only to blocks and values that are there.
pub open spec fn term_closed(term: Terminator, insts: int, blocks: int) -> bool {
    match term {
        Terminator::Unreachable => true,
        Terminator::Branch(to) => to < blocks,
        Terminator::CondBranch(cond, a, b) => cond < insts && a < blocks && b < blocks,
        Terminator::Return(Some(v)) => v < insts,
        Terminator::Return(None) => true,
    }
}

/// Whether a block lists only instructions that are there and ends in a
/// terminator that refers only to what is there.
pub open spec fn block_closed(b: BasicBlockView, insts: int, blocks: int) -> bool {
    &&& forall|k: int| 0 <= k < b.insts.len() ==> b.insts[k] < insts
    &&& term_closed(b.term, insts, blocks)
}

/// Whether a graph is closed.
pub open spec fn closed(g: GraphView) -> bool {
    &&& forall|i: int|
        0 <= i < g.insts.len() ==> inst_closed(
            #[trigger] g.insts[i],
            i,
            g.params as int,
            g.slots.len() as int,
            g.blocks.len() as int,
        )
    &&& forall|b: int|
        0 <= b < g.blocks.len() ==> block_closed(
            #[trigger] g.blocks[b],
            g.insts.len() as int,
            g.blocks.len() as int,
        )
}

/// Whether a loop that is being linearized refers only to what is there.
pub open spec fn frame_closed(f: FrameView, insts: int, blocks: int) -> bool {
    &&& f.cont < blocks
    &&& forall|k: int|
        0 <= k < f.incoming.len() ==> (#[trigger] f.incoming[k]).0 < insts && f.incoming[k].1
            < blocks
}

/// Whether a state of linearization is sound: its graph is closed, and so
/// are the loops that are being linearized.
#[verifier::opaque]
pub open spec fn sound(s: LinState) -> bool {
    &&& closed(s.graph)
    &&& forall|k: int|
        0 <= k < s.loops.len() ==> frame_closed(
            #[trigger] s.loops[k],
            s.graph.insts.len() as int,
            s.graph.blocks.len() as int,
        )
}

/// Whether instructions go to a block that is there.
pub open spec fn placed(s: LinState) -> bool {
    s.current < s.graph.blocks.len()
}

/// Whether the second state has everything that the first has: the same
/// function, and at least its instructions and blocks.
pub open spec fn grows(s: LinState, s1: LinState) -> bool {
    &&& s1.graph.params == s.graph.params
    &&& s1.graph.slots == s.graph.slots
    &&& s1.consts == s.consts
    &&& s.graph.insts.len() <= s1.graph.insts.len()
    &&& s.graph.blocks.len() <= s1.graph.blocks.len()
}

/// Whether an instruction may be appended in a state.
pub open spec fn fits(inst: InstView, s: LinState) -> bool {
    inst_closed(
        inst,
        s.graph.insts.len() as int,
        s.graph.params as int,
        s.graph.slots.len() as int,
        s.graph.blocks.len() as int,
    )
}

/// A new block keeps the state sound.
pub proof fn lemma_new_block(s: LinState)
    requires
        sound(s),
    ensures
        sound(s.new_block().1),
        grows(s, s.new_block().1),
        s.new_block().0 <= s.graph.blocks.len(),
        s.new_block().1.graph.blocks.len() == s.graph.blocks.len() + 1,
        s.new_block().1.graph.insts == s.graph.insts,
        s.new_block().1.loops == s.loops,
        s.new_block().1.current == s.current,
{
    reveal(sound);
    let s1 = s.new_block().1;
    assert forall|b: int| 0 <= b < s1.graph.blocks.len() implies block_closed(
        #[trigger] s1.graph.blocks[b],
        s1.graph.insts.len() as int,
        s1.graph.blocks.len() as int,
    ) by {
        if b < s.graph.blocks.len() {
            assert(s1.graph.blocks[b] == s.graph.blocks[b]);
        }
    }
    assert forall|i: int| 0 <= i < s1.graph.insts.len() implies inst_closed(
        #[trigger] s1.graph.insts[i],
        i,
        s1.graph.params as int,
        s1.graph.slots.len() as int,
        s1.graph.blocks.len() as int,
    ) by {
        assert(inst_closed(
            s.graph.insts[i],
            i,
            s.graph.params as int,
            s.graph.slots.len() as int,
            s.graph.blocks.len() as int,
        ));
    }
}

/// An instruction that refers only to what is there keeps the state sound.
pub proof fn lemma_emit(s: LinState, inst: InstView)
    requires
        sound(s),
        placed(s),
        fits(inst, s),
    ensures
        sound(s.emit(inst).1),
        placed(s.emit(inst).1),
        grows(s, s.emit(inst).1),
        s.emit(inst).0 <= s.graph.insts.len(),
        s.emit(inst).1.graph.insts.len() == s.graph.insts.len() + 1,
        s.emit(inst).1.graph.blocks.len() == s.graph.blocks.len(),
        s.emit(inst).1.loops == s.loops,
        s.emit(inst).1.current == s.current,
{
    reveal(sound);
    let s1 = s.emit(inst).1;
    let id = s.graph.insts.len() as usize;
    assert forall|b: int| 0 <= b < s1.graph.blocks.len() implies block_closed(
        #[trigger] s1.graph.blocks[b],
        s1.graph.insts.len() as int,
        s1.graph.blocks.len() as int,
    ) by {
        assert(block_closed(
            s.graph.blocks[b],
            s.graph.insts.len() as int,
            s.graph.blocks.len() as int,
        ));
        if b == s.current {
            let old_insts = s.graph.blocks[b].insts;
            let new_insts = s1.graph.blocks[b].insts;
            assert forall|k: int| 0 <= k < new_insts.len() implies new_insts[k]
                < s1.graph.insts.len() by {
                if k < old_insts.len() {
                    assert(new_insts[k] == old_insts[k]);
                }
            }
        }
    }
    assert forall|i: int| 0 <= i < s1.graph.insts.len() implies inst_closed(
        #[trigger] s1.graph.insts[i],
        i,
        s1.graph.params as int,
        s1.graph.slots.len() as int,
        s1.graph.blocks.len() as int,
    ) by {
        if i < s.graph.insts.len() {
            assert(s1.graph.insts[i] == s.graph.insts[i]);
        }
    }
    assert forall|k: int| 0 <= k < s1.loops.len() implies frame_closed(
        #[trigger] s1.loops[k],
        s1.graph.insts.len() as int,
        s1.graph.blocks.len() as int,
    ) by {
        assert(frame_closed(
            s.loops[k],
            s.graph.insts.len() as int,
            s.graph.blocks.len() as int,
        ));
    }
}

/// A terminator that refers only to what is there keeps the state sound.
pub proof fn lemma_terminate(s: LinState, block: usize, term: Terminator)
    requires
        sound(s),
        term_closed(term, s.graph.insts.len() as int, s.graph.blocks.len() as int),
    ensures
        sound(s.terminate(block, term)),
        grows(s, s.terminate(block, term)),
        s.terminate(block, term).graph.insts == s.graph.insts,
        s.terminate(block, term).graph.blocks.len() == s.graph.blocks.len(),
        s.terminate(block, term).loops == s.loops,
        s.terminate(block, term).current == s.current,
{
    reveal(sound);
    let s1 = s.terminate(block, term);
    assert forall|b: int| 0 <= b < s1.graph.blocks.len() implies block_closed(
        #[trigger] s1.graph.blocks[b],
        s1.graph.insts.len() as int,
        s1.graph.blocks.len() as int,
    ) by {
        assert(block_closed(
            s.graph.blocks[b],
            s.graph.insts.len() as int,
            s.graph.blocks.len() as int,
        ));
    }
}

/// Going to another block keeps the state sound.
pub proof fn lemma_at(s: LinState, block: usize)
    requires
        sound(s),
    ensures
        sound(s.at(block)),
        grows(s, s.at(block)),
        s.at(block).graph == s.graph,
        s.at(block).loops == s.loops,
{
    reveal(sound);
}

/// Entering a loop that goes on in a block that is there keeps the state
/// sound.
pub proof fn lemma_enter_loop(s: LinState, cont: usize, carries: bool)
    requires
        sound(s),
        cont < s.graph.blocks.len(),
    ensures
        sound(s.enter_loop(cont, carries)),
        s.enter_loop(cont, carries).graph == s.graph,
        s.enter_loop(cont, carries).current == s.current,
        s.enter_loop(cont, carries).consts == s.consts,
        s.enter_loop(cont, carries).loops.len() == s.loops.len() + 1,
{
    reveal(sound);
    let s1 = s.enter_loop(cont, carries);
    assert forall|k: int| 0 <= k < s1.loops.len() implies frame_closed(
        #[trigger] s1.loops[k],
        s1.graph.insts.len() as int,
        s1.graph.blocks.len() as int,
    ) by {
        if k < s.loops.len() {
            assert(s1.loops[k] == s.loops[k]);
        }
    }
}

/// Leaving a loop keeps the state sound, and the values that the `break`s
/// of the loop carried can be merged.
pub proof fn lemma_leave_loop(s: LinState)
    requires
        sound(s),
        s.loops.len() > 0,
    ensures
        sound(s.leave_loop().1),
        s.leave_loop().1.graph == s.graph,
        s.leave_loop().1.current == s.current,
        s.leave_loop().1.consts == s.consts,
        s.leave_loop().1.loops.len() == s.loops.len() - 1,
        fits(InstView::Phi(s.leave_loop().0), s),
{
    reveal(sound);
    let s1 = s.leave_loop().1;
    assert forall|k: int| 0 <= k < s1.loops.len() implies frame_closed(
        #[trigger] s1.loops[k],
        s1.graph.insts.len() as int,
        s1.graph.blocks.len() as int,
    ) by {
        assert(s1.loops[k] == s.loops[k]);
    }
    assert(frame_closed(
        s.loops[s.loops.len() - 1],
        s.graph.insts.len() as int,
        s.graph.blocks.len() as int,
    ));
}

/// Leaving a loop by a `break` keeps the state sound.
pub proof fn lemma_leave_by_break(s: LinState, value: Option<usize>)
    requires
        sound(s),
        placed(s),
        value matches Some(v) ==> v < s.graph.insts.len(),
    ensures
        s.leave_by_break(value) matches Ok(s1) ==> sound(s1) && placed(s1) && grows(s, s1)
            && same_loops(s, s1) && s1.graph.insts == s.graph.insts && s1.graph.blocks.len()
            == s.graph.blocks.len(),
{
    reveal(sound);
    if let Ok(s1) = s.leave_by_break(value) {
        let frame = s.loops.last();
        assert(frame_closed(frame, s.graph.insts.len() as int, s.graph.blocks.len() as int));
        let incoming = if frame.carries {
            frame.incoming.push((value.unwrap(), s.current))
        } else {
            frame.incoming
        };
        let mid = LinState {
            loops: s.loops.update(s.loops.len() - 1, FrameView { incoming, ..frame }),
            ..s
        };
        assert forall|k: int| 0 <= k < mid.loops.len() implies frame_closed(
            #[trigger] mid.loops[k],
            mid.graph.insts.len() as int,
            mid.graph.blocks.len() as int,
        ) by {
            if k < s.loops.len() - 1 {
                assert(mid.loops[k] == s.loops[k]);
                assert(frame_closed(
                    s.loops[k],
                    s.graph.insts.len() as int,
                    s.graph.blocks.len() as int,
                ));
            } else {
                assert forall|j: int| 0 <= j < incoming.len() implies (#[trigger] incoming[j]).0
                    < mid.graph.insts.len() && incoming[j].1 < mid.graph.blocks.len() by {
                    if j < frame.incoming.len() {
                        assert(incoming[j] == frame.incoming[j]);
                    }
                }
            }
        }
        assert(sound(mid));
        lemma_terminate(mid, s.current, Terminator::Branch(frame.cont));
    }
}

/// A name stands for a slot that is there.
pub proof fn lemma_slot_named(slots: Seq<SlotView>, name: Seq<char>)
    ensures
        slot_named(slots, name) matches Some(i) ==> i < slots.len(),
    decreases slots.len(),
{
    if slots.len() > 0 && slots.last().name != name {
        lemma_slot_named(slots.drop_last(), name);
    }
}

/// Whether the same loops are being linearized in two states: as many,
/// each going on in the same block and carrying a value or not as before.
pub open spec fn same_loops(s: LinState, s1: LinState) -> bool {
    &&& s1.loops.len() == s.loops.len()
    &&& forall|k: int|
        0 <= k < s.loops.len() ==> (#[trigger] s1.loops[k]).cont == s.loops[k].cont
            && s1.loops[k].carries == s.loops[k].carries
}

/// What holds of the state before and after a step of linearization that
/// starts in a sound state: the state is sound again, it has everything
/// that it had, and the same loops are being linearized.
pub open spec fn step(s: LinState, s1: LinState) -> bool {
    &&& sound(s1)
    &&& placed(s1)
    &&& grows(s, s1)
    &&& same_loops(s, s1)
}

/// Whether a value is there, if there is one.
pub open spec fn value_there(v: Option<usize>, s: LinState) -> bool {
    v matches Some(x) ==> x < s.graph.insts.len()
}

/// Whether a linearized block of the source refers only to what is there.
pub open spec fn out_there(out: BlockReturn, s: LinState) -> bool {
    &&& out.first_block < s.graph.blocks.len()
    &&& out.last_block < s.graph.blocks.len()
    &&& out.tail matches BlockTail::Value(x) ==> x < s.graph.insts.len()
}

/// Linearizing an expression keeps the state sound.
pub proof fn lemma_lin_expr(e: ExprView, s: LinState)
    requires
        sound(s),
        placed(s),
    ensures
        lin_expr(e, s) matches Ok((v, s1)) ==> step(s, s1) && value_there(v, s1),
    decreases e, 0nat,
{
    match e.value {
        ValueView::ConstInt(n) => {
            lemma_emit(s, InstView::ConstInt(n));
        },
        ValueView::ConstStr(i) => {
            lemma_emit(s, InstView::ConstStr(i));
        },
        ValueView::LExpr(place) => {
            lemma_place_slot(place, s.graph.slots);
            if let Ok(slot) = place_slot(place, s.graph.slots) {
                lemma_emit(s, InstView::Load(slot));
            }
        },
        ValueView::Assign(op, place, value) => {
            lemma_lin_assign(op, place, *value, s);
        },
        ValueView::Op(op, l, r) => {
            lemma_lin_expr(*l, s);
            if let Ok((Some(lv), s1)) = lin_expr(*l, s) {
                lemma_lin_expr(*r, s1);
                if let Ok((Some(rv), s2)) = lin_expr(*r, s1) {
                    lemma_emit(s2, InstView::Op(op, lv, rv));
                }
            }
        },
        ValueView::CallConcrete(callee, args) => {
            lemma_lin_call(callee, args, e.ty.is_some(), s);
        },
        ValueView::Block(b) => {
            lemma_lin_block_expr(*b, s);
        },
        ValueView::If(i) => {
            lemma_lin_if(i, s);
        },
        ValueView::Loop(b) => {
            lemma_lin_loop(e.ty, *b, s);
        },
    }
}

/// The slot of a place is there.
pub proof fn lemma_place_slot(place: LExprView, slots: Seq<SlotView>)
    ensures
        place_slot(place, slots) matches Ok(slot) ==> slot < slots.len(),
{
    match place.value {
        crate::lir::LValueView::Var(crate::types::IdentView::Local(name)) => {
            lemma_slot_named(slots, name);
        },
        _ => {},
    }
}

/// Linearizing an optional expression keeps the state sound.
pub proof fn lemma_lin_opt_expr(e: Option<ExprView>, s: LinState)
    requires
        sound(s),
        placed(s),
    ensures
        lin_opt_expr(e, s) matches Ok((v, s1)) ==> step(s, s1) && value_there(v, s1),
    decreases e, 1nat,
{
    if let Some(e) = e {
        lemma_lin_expr(e, s);
    }
}

/// Linearizing an assignment keeps the state sound.
pub proof fn lemma_lin_assign(op: Option<Op>, place: LExprView, value: ExprView, s: LinState)
    requires
        sound(s),
        placed(s),
    ensures
        lin_assign(op, place, value, s) matches Ok((v, s1)) ==> step(s, s1) && value_there(v, s1),
    decreases value, 1nat,
{
    lemma_lin_expr(value, s);
    if let Ok((Some(v), s1)) = lin_expr(value, s) {
        lemma_place_slot(place, s1.graph.slots);
        if let Ok(slot) = place_slot(place, s1.graph.slots) {
            lemma_emit(s1, InstView::Store(slot, op, v));
        }
    }
}

/// Linearizing the arguments of a call keeps the state sound, and the
/// values of the arguments are there.
pub proof fn lemma_lin_args(args: Seq<ExprView>, n: nat, s: LinState)
    requires
        sound(s),
        placed(s),
    ensures
        lin_args(args, n, s) matches Ok((values, s1)) ==> step(s, s1) && forall|k: int|
            0 <= k < values.len() ==> values[k] < s1.graph.insts.len(),
    decreases args, n,
{
    if !(n == 0 || n > args.len()) {
        lemma_lin_args(args, (n - 1) as nat, s);
        if let Ok((done, s1)) = lin_args(args, (n - 1) as nat, s) {
            lemma_lin_expr(args[n - 1], s1);
            if let Ok((Some(v), s2)) = lin_expr(args[n - 1], s1) {
                let values = done.push(v);
                assert forall|k: int| 0 <= k < values.len() implies values[k]
                    < s2.graph.insts.len() by {
                    if k < done.len() {
                        assert(values[k] == done[k]);
                    }
                }
            }
        }
    } else {
        reveal(sound);
    }
}

/// Linearizing a call keeps the state sound.
pub proof fn lemma_lin_call(
    callee: crate::types::IdentView,
    args: Seq<ExprView>,
    yields: bool,
    s: LinState,
)
    requires
        sound(s),
        placed(s),
    ensures
        lin_call(callee, args, yields, s) matches Ok((v, s1)) ==> step(s, s1) && value_there(
            v,
            s1,
        ),
    decreases args, args.len() + 1,
{
    lemma_lin_args(args, args.len(), s);
    if let Ok((values, s1)) = lin_args(args, args.len(), s) {
        lemma_emit(s1, InstView::Call(callee, values));
    }
}

/// Linearizing a block keeps the state sound, and the blocks and the
/// value that it reports are there.
pub proof fn lemma_lin_block(b: BlockView, s: LinState)
    requires
        sound(s),
    ensures
        lin_block(b, s) matches Ok((out, s1)) ==> step(s, s1) && out_there(out, s1)
            && s1.current == out.last_block,
    decreases b, 1nat,
{
    lemma_new_block(s);
    let (first, s1) = s.new_block();
    lemma_at(s1, first);
    let s2 = s1.at(first);
    lemma_lin_stmts(b.statements, b.statements.len(), s2);
    if let Ok((returned, s3)) = lin_stmts(b.statements, b.statements.len(), s2) {
        if !returned {
            lemma_lin_opt_expr(b.tail, s3);
        }
    }
}

/// Linearizing statements keeps the state sound.
pub proof fn lemma_lin_stmts(ss: Seq<StmtView>, n: nat, s: LinState)
    requires
        sound(s),
        placed(s),
    ensures
        lin_stmts(ss, n, s) matches Ok((_, s1)) ==> step(s, s1),
    decreases ss, n,
{
    if !(n == 0 || n > ss.len()) {
        lemma_lin_stmts(ss, (n - 1) as nat, s);
        if let Ok((returned, s1)) = lin_stmts(ss, (n - 1) as nat, s) {
            if !returned {
                lemma_lin_stmt(ss[n - 1], s1);
            }
        }
    } else {
        reveal(sound);
    }
}

/// Linearizing a statement keeps the state sound.
pub proof fn lemma_lin_stmt(st: StmtView, s: LinState)
    requires
        sound(s),
        placed(s),
    ensures
        lin_stmt(st, s) matches Ok((_, s1)) ==> step(s, s1),
    decreases st, 2nat,
{
    match st {
        StmtView::Eval(e) => {
            lemma_lin_expr(e, s);
        },
        StmtView::Return(e) => {
            lemma_lin_opt_expr(e, s);
            if let Ok((v, s1)) = lin_opt_expr(e, s) {
                lemma_terminate(s1, s1.current, Terminator::Return(v));
            }
        },
        StmtView::Decl(name, e) => {
            lemma_slot_named(s.graph.slots, name);
            if let Some(slot) = slot_named(s.graph.slots, name) {
                lemma_lin_expr(e, s);
                if let Ok((Some(v), s1)) = lin_expr(e, s) {
                    lemma_emit(s1, InstView::Store(slot, None, v));
                }
            }
        },
        StmtView::Break(e) => {
            lemma_lin_opt_expr(e, s);
            if let Ok((v, s1)) = lin_opt_expr(e, s) {
                lemma_leave_by_break(s1, v);
            }
        },
    }
}

/// Linearizing a block that stands as an expression keeps the state sound.
pub proof fn lemma_lin_block_expr(b: BlockView, s: LinState)
    requires
        sound(s),
        placed(s),
    ensures
        lin_block_expr(b, s) matches Ok((v, s1)) ==> step(s, s1) && value_there(v, s1),
    decreases b, 2nat,
{
    lemma_lin_block(b, s);
    if let Ok((out, s1)) = lin_block(b, s) {
        lemma_terminate(s1, s.current, Terminator::Branch(out.first_block));
        let s2 = s1.terminate(s.current, Terminator::Branch(out.first_block));
        lemma_new_block(s2);
        let (cont, s3) = s2.new_block();
        lemma_at(s3, cont);
        lemma_terminate(s3, out.last_block, Terminator::Branch(cont));
        lemma_at(s3.terminate(out.last_block, Terminator::Branch(cont)), cont);
    }
}

/// Linearizing an optional block keeps the state sound.
pub proof fn lemma_lin_opt_block(b: Option<Box<BlockView>>, s: LinState)
    requires
        sound(s),
        placed(s),
    ensures
        lin_opt_block(b, s) matches Ok((out, s1)) ==> step(s, s1) && (out matches Some(o)
            ==> out_there(o, s1)),
    decreases b, 2nat,
{
    match b {
        None => {
            reveal(sound);
        },
        Some(b) => {
            lemma_lin_block(*b, s);
        },
    }
}

/// Joining the branches of a conditional keeps the state sound.
pub proof fn lemma_joined(
    s: LinState,
    then_out: BlockReturn,
    else_out: BlockReturn,
    next: usize,
    how: Join,
)
    requires
        sound(s),
        out_there(then_out, s),
        out_there(else_out, s),
        next < s.graph.blocks.len(),
        join(then_out.tail, else_out.tail) == Ok::<Join, LinearizeError>(how),
    ensures
        step(s, joined(s, then_out, else_out, next, how).1),
        value_there(
            joined(s, then_out, else_out, next, how).0,
            joined(s, then_out, else_out, next, how).1,
        ),
{
    let s1 = if how.then_falls {
        s.terminate(then_out.last_block, Terminator::Branch(next))
    } else {
        s
    };
    lemma_terminate(s, then_out.last_block, Terminator::Branch(next));
    let s2 = if how.else_falls {
        s1.terminate(else_out.last_block, Terminator::Branch(next))
    } else {
        s1
    };
    lemma_terminate(s1, else_out.last_block, Terminator::Branch(next));
    lemma_at(s2, next);
    let s3 = s2.at(next);
    if let JoinValue::Merge(a, b) = how.value {
        let incoming = seq![(a, then_out.last_block), (b, else_out.last_block)];
        assert(fits(InstView::Phi(incoming), s3));
        lemma_emit(s3, InstView::Phi(incoming));
    }
}

/// Linearizing a conditional keeps the state sound.
pub proof fn lemma_lin_if(i: IfView, s: LinState)
    requires
        sound(s),
        placed(s),
    ensures
        lin_if(i, s) matches Ok((v, s1)) ==> step(s, s1) && value_there(v, s1),
    decreases i, 3nat,
{
    lemma_lin_expr(*i.cond, s);
    if let Ok((Some(cv), s1)) = lin_expr(*i.cond, s) {
        lemma_lin_block(*i.then_block, s1);
        if let Ok((then_out, s2)) = lin_block(*i.then_block, s1) {
            lemma_lin_opt_block(i.else_block, s2);
            if let Ok((else_out, s3)) = lin_opt_block(i.else_block, s2) {
                lemma_new_block(s3);
                let (next, s4) = s3.new_block();
                match else_out {
                    Some(else_out) => {
                        let t = Terminator::CondBranch(
                            cv,
                            then_out.first_block,
                            else_out.first_block,
                        );
                        lemma_terminate(s4, s1.current, t);
                        let s5 = s4.terminate(s1.current, t);
                        if let Ok(how) = join(then_out.tail, else_out.tail) {
                            lemma_joined(s5, then_out, else_out, next, how);
                        }
                    },
                    None => {
                        let t = Terminator::CondBranch(cv, then_out.first_block, next);
                        lemma_terminate(s4, s1.current, t);
                        let s5 = s4.terminate(s1.current, t);
                        lemma_at(s5, next);
                        lemma_terminate(s5, then_out.last_block, Terminator::Branch(next));
                        lemma_at(
                            s5.terminate(then_out.last_block, Terminator::Branch(next)),
                            next,
                        );
                    },
                }
            }
        }
    }
}

/// Linearizing a loop keeps the state sound.
pub proof fn lemma_lin_loop(ty: Option<TypeView>, body: BlockView, s: LinState)
    requires
        sound(s),
        placed(s),
    ensures
        lin_loop(ty, body, s) matches Ok((v, s1)) ==> step(s, s1) && value_there(v, s1),
    decreases body, 2nat,
{
    lemma_new_block(s);
    let (cont, s1) = s.new_block();
    let carries = crate::linear::carries_value(ty);
    lemma_enter_loop(s1, cont, carries);
    let s1e = s1.enter_loop(cont, carries);
    lemma_lin_block(body, s1e);
    if let Ok((out, s2)) = lin_block(body, s1e) {
        lemma_terminate(s2, s.current, Terminator::Branch(out.first_block));
        let s3 = s2.terminate(s.current, Terminator::Branch(out.first_block));
        lemma_terminate(s3, out.last_block, Terminator::Branch(out.first_block));
        let s4 = if out.tail == BlockTail::Returned {
            s3
        } else {
            s3.terminate(out.last_block, Terminator::Branch(out.first_block))
        };
        lemma_leave_loop(s4);
        let (incoming, s5) = s4.leave_loop();
        lemma_at(s5, cont);
        let s6 = s5.at(cont);
        if incoming.len() > 0 {
            lemma_emit(s6, InstView::Phi(incoming));
        }
    }
}

/// Storing the arguments of the parameters keeps the state sound.
pub proof fn lemma_lin_params(params: Seq<(Seq<char>, TypeView)>, n: nat, s: LinState)
    requires
        sound(s),
        placed(s),
        n <= params.len() <= usize::MAX,
        s.graph.params == params.len(),
    ensures
        lin_params(params, n, s) matches Ok(s1) ==> step(s, s1),
    decreases n,
{
    if n > 0 {
        lemma_lin_params(params, (n - 1) as nat, s);
        if let Ok(s1) = lin_params(params, (n - 1) as nat, s) {
            lemma_slot_named(s1.graph.slots, params[n - 1].0);
            if let Some(slot) = slot_named(s1.graph.slots, params[n - 1].0) {
                lemma_emit(s1, InstView::Param((n - 1) as usize));
                let (v, s2) = s1.emit(InstView::Param((n - 1) as usize));
                lemma_emit(s2, InstView::Store(slot, None, v));
            }
        }
    } else {
        reveal(sound);
    }
}

/// The control-flow graph of a function is closed. Every instruction
/// refers only to slots and parameters that the function has, to blocks of
/// the graph, and to values of instructions that stand before it; every
/// block lists only instructions of the graph, and its terminator leads
/// only to blocks of the graph.
pub proof fn law_graph_closed(
    body: FnBodyView,
    params: Seq<(Seq<char>, TypeView)>,
    consts: usize,
)
    requires
        params.len() <= usize::MAX,
    ensures
        lin_fn_body(body, params, consts) matches Ok(g) ==> closed(g) && g.params == params.len()
            && g.slots.len() == params.len() + body.decls.len() && g.blocks.len() >= 2,
{
    if let Ok(locals) = decl_slots(body.decls, body.decls.len()) {
        lemma_decl_slots_len(body.decls, body.decls.len());
        let s0 = initial(params.len() as usize, param_slots(params) + locals, consts);
        assert(sound(s0)) by {
            reveal(sound);
        }
        lemma_new_block(s0);
        let (start, s1) = s0.new_block();
        lemma_at(s1, start);
        lemma_lin_params(params, params.len(), s1.at(start));
        if let Ok(s2) = lin_params(params, params.len(), s1.at(start)) {
            lemma_lin_block(body.block, s2);
            if let Ok((out, s3)) = lin_block(body.block, s2) {
                lemma_terminate(s3, start, Terminator::Branch(out.first_block));
                let s4 = s3.terminate(start, Terminator::Branch(out.first_block));
                match out.tail {
                    BlockTail::Returned => {},
                    BlockTail::NoValue => {
                        lemma_terminate(s4, out.last_block, Terminator::Return(None));
                    },
                    BlockTail::Value(v) => {
                        lemma_terminate(s4, out.last_block, Terminator::Return(Some(v)));
                    },
                }
                assert(closed(finished(s3, start, out).graph)) by {
                    reveal(sound);
                }
                assert(s3.graph.blocks.len() > s2.graph.blocks.len()) by {
                    lemma_block_is_new(body.block, s2);
                }
            }
        }
    }
}

/// A function has one slot for each local that its body declares.
pub proof fn lemma_decl_slots_len(decls: Seq<crate::lir::DeclView>, n: nat)
    requires
        n <= decls.len(),
    ensures
        decl_slots(decls, n) matches Ok(slots) ==> slots.len() == n,
    decreases n,
{
    if n > 0 {
        lemma_decl_slots_len(decls, (n - 1) as nat);
    }
}

/// A block of the source gets at least one basic block of its own.
pub proof fn lemma_block_is_new(b: BlockView, s: LinState)
    requires
        sound(s),
    ensures
        lin_block(b, s) matches Ok((_, s1)) ==> s1.graph.blocks.len() > s.graph.blocks.len(),
{
    lemma_new_block(s);
    let (first, s1) = s.new_block();
    lemma_at(s1, first);
    let s2 = s1.at(first);
    lemma_lin_stmts(b.statements, b.statements.len(), s2);
    if let Ok((returned, s3)) = lin_stmts(b.statements, b.statements.len(), s2) {
        if !returned {
            lemma_lin_opt_expr(b.tail, s3);
        }
    }
}

} // verus!
