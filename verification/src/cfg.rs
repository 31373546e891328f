//! The control-flow graph of a function: basic blocks of straight-line
//! instructions, each block with one terminator, and merge points where the
//! value of a conditional or of a loop comes from more than one block.

use vstd::prelude::*;
use crate::types::{Ident, IdentView, Op, Type, TypeView};

verus! {

/// How control leaves a basic block.
#[derive(Debug, Clone, Copy, PartialEq, Eq, Structural)]
pub enum Terminator {
    /// Control never gets to the end of the block. Every block is made with
    /// this terminator.
    Unreachable,
    /// Control goes on in the given block.
    Branch(usize),
    /// Control goes on in the first block if the value holds and in the
    /// second if not.
    CondBranch(usize, usize, usize),
    /// The function returns, with the value if there is one.
    Return(Option<usize>),
}

/// An instruction. The value that an instruction yields is known by the
/// index of the instruction in the graph.
#[derive(Debug, PartialEq, Eq)]
pub enum Instruction {
    /// The argument passed for the parameter with the given index.
    Param(usize),
    /// An integer constant.
    ConstInt(u64),
    /// The address of the string constant with the given index in the
    /// constant pool.
    ConstStr(usize),
    /// The content of a slot.
    Load(usize),
    /// Writes a value to a slot; with an operator, combines the content of
    /// the slot with the value by the operator and writes the result.
    Store(usize, Option<Op>, usize),
    /// A binary operator applied to two values.
    Op(Op, usize, usize),
    /// A call of the function with the given arguments.
    Call(Ident, Vec<usize>),
    /// A merge point: the value is the one paired with the block that
    /// control came from.
    Phi(Vec<(usize, usize)>),
}

/// Mathematical model of an [`Instruction`].
pub enum InstView {
    Param(usize),
    ConstInt(u64),
    ConstStr(usize),
    Load(usize),
    Store(usize, Option<Op>, usize),
    Op(Op, usize, usize),
    Call(IdentView, Seq<usize>),
    Phi(Seq<(usize, usize)>),
}

impl View for Instruction {
    type V = InstView;

    open spec fn view(&self) -> InstView {
        match self {
            Instruction::Param(i) => InstView::Param(*i),
            Instruction::ConstInt(n) => InstView::ConstInt(*n),
            Instruction::ConstStr(i) => InstView::ConstStr(*i),
            Instruction::Load(s) => InstView::Load(*s),
            Instruction::Store(s, op, v) => InstView::Store(*s, *op, *v),
            Instruction::Op(op, l, r) => InstView::Op(*op, *l, *r),
            Instruction::Call(f, args) => InstView::Call(f@, args@),
            Instruction::Phi(incoming) => InstView::Phi(incoming@),
        }
    }
}

/// A basic block.
#[derive(Debug, PartialEq, Eq)]
pub struct BasicBlock {
    /// A name for the block in listings. It has no meaning.
    pub label: String,
    /// The instructions of the block by their indices in the graph, in the
    /// order in which they run.
    pub insts: Vec<usize>,
    pub term: Terminator,
}

/// Mathematical model of a [`BasicBlock`]. The label is no part of it.
pub struct BasicBlockView {
    pub insts: Seq<usize>,
    pub term: Terminator,
}

impl View for BasicBlock {
    type V = BasicBlockView;

    open spec fn view(&self) -> BasicBlockView {
        BasicBlockView { insts: self.insts@, term: self.term }
    }
}

/// A named stack slot.
#[derive(Debug, PartialEq, Eq)]
pub struct Slot {
    pub name: String,
    pub ty: Type,
}

/// Mathematical model of a [`Slot`].
pub struct SlotView {
    pub name: Seq<char>,
    pub ty: TypeView,
}

impl View for Slot {
    type V = SlotView;

    open spec fn view(&self) -> SlotView {
        SlotView { name: self.name@, ty: self.ty@ }
    }
}

/// The control-flow graph of one function. Control enters at block 0.
#[derive(Debug, PartialEq, Eq)]
pub struct FnGraph {
    /// The number of parameters. The first slots are theirs, in order.
    pub params: usize,
    /// The slots of the parameters, then those of the locals in the order
    /// in which the body declares them.
    pub slots: Vec<Slot>,
    pub insts: Vec<Instruction>,
    pub blocks: Vec<BasicBlock>,
}

/// The models of a list of slots, element by element.
pub open spec fn view_slots(ss: Seq<Slot>) -> Seq<SlotView> {
    Seq::new(ss.len(), |i: int| ss[i]@)
}

/// The models of a list of instructions, element by element.
pub open spec fn view_insts(is: Seq<Instruction>) -> Seq<InstView> {
    Seq::new(is.len(), |i: int| is[i]@)
}

/// The models of a list of basic blocks, element by element.
pub open spec fn view_blocks(bs: Seq<BasicBlock>) -> Seq<BasicBlockView> {
    Seq::new(bs.len(), |i: int| bs[i]@)
}

/// Mathematical model of a [`FnGraph`].
pub struct GraphView {
    pub params: usize,
    pub slots: Seq<SlotView>,
    pub insts: Seq<InstView>,
    pub blocks: Seq<BasicBlockView>,
}

impl View for FnGraph {
    type V = GraphView;

    open spec fn view(&self) -> GraphView {
        GraphView {
            params: self.params,
            slots: view_slots(self.slots@),
            insts: view_insts(self.insts@),
            blocks: view_blocks(self.blocks@),
        }
    }
}

/// How control leaves a linearized block of the source.
#[derive(Debug, Clone, Copy, PartialEq, Eq, Structural)]
pub enum BlockTail {
    /// Control has left for good, by a `return` or a `break`: nothing falls
    /// through.
    Returned,
    /// Control falls through and carries no value.
    NoValue,
    /// Control falls through and carries the value.
    Value(usize),
}

/// A linearized block of the source: where it starts, where it ends, and
/// how control leaves it.
#[derive(Debug, Clone, Copy, PartialEq, Eq, Structural)]
pub struct BlockReturn {
    pub first_block: usize,
    pub last_block: usize,
    pub tail: BlockTail,
}

/// The ways in which a lowered tree can be inconsistent. The last two are
/// disagreements between the branches of a conditional: a tree that has
/// one is not to be linearized at all, and the linearizer tells beforehand
/// whether a tree has one. The others are what linearization reports.
#[derive(Debug, Clone, Copy, PartialEq, Eq, Structural)]
pub enum LinearizeError {
    /// A value is used where the expression yields none.
    MissingValue,
    /// A local is used that has no slot.
    UnknownLocal,
    /// A place is assigned to or read that is not a local.
    UnsupportedPlace,
    /// A string constant is used that is not in the pool.
    UnknownConstant,
    /// A function is defined that has no signature.
    UnknownFunction,
    /// A statement follows a `return` or a `break` in the same block.
    UnreachableStatement,
    /// A `break` has no loop around it.
    BreakOutsideLoop,
    /// One branch of a conditional yields a value and the other does not.
    BranchValueMismatch,
    /// A conditional without an else-branch yields a value.
    ValueInSingleBranchIf,
}

} // verus!
