use lokc::cfg::BlockTail::{NoValue, Returned, Value};
use lokc::cfg::{FnGraph, Instruction, LinearizeError, Slot, Terminator};
use lokc::linear::{Join, JoinValue};
use lokc::linearize::{join_tails, tails_agree, Linearizer, Program};
use lokc::lir::{
    Block, Constants, Decl, DeclFn, DefFn, Expression, ExpressionValue, FnBody, If, LExpression,
    LExpressionValue, Module, Statement,
};
use lokc::types::{Ident, Op, Primitive, Type};
use unique_id::string::StringGenerator;

fn i32_type() -> Type {
    Type::Primitive(Primitive::I32)
}

fn num(n: u64) -> Expression {
    Expression { ty: Some(i32_type()), value: ExpressionValue::ConstInt(n) }
}

fn truth() -> Expression {
    Expression {
        ty: Some(Type::Primitive(Primitive::Bool)),
        value: ExpressionValue::Op(Op::Eq, Box::new(num(1)), Box::new(num(1))),
    }
}

fn local(name: &str) -> LExpression {
    LExpression {
        ty: i32_type(),
        mutable: true,
        value: LExpressionValue::Var(Ident::Local(name.to_string())),
    }
}

fn load(name: &str) -> Expression {
    Expression { ty: Some(i32_type()), value: ExpressionValue::LExpr(local(name)) }
}

fn void_call(f: &str, args: Vec<Expression>) -> Expression {
    Expression {
        ty: None,
        value: ExpressionValue::CallConcrete(Ident::UnmangledItem(f.to_string()), args),
    }
}

fn block(statements: Vec<Statement>, tail: Option<Expression>) -> Block {
    Block { statements, tail }
}

fn if_(c: Expression, t: Block, e: Option<Block>, ty: Option<Type>) -> Expression {
    Expression { ty, value: ExpressionValue::If(If(Box::new(c), Box::new(t), e.map(Box::new))) }
}

fn loop_(b: Block, ty: Option<Type>) -> Expression {
    Expression { ty, value: ExpressionValue::Loop(Box::new(b)) }
}

fn slot_decl(name: &str) -> Decl {
    Decl { name: Ident::Local(name.to_string()), mutable: true, ty: i32_type() }
}

fn graph_with(
    decls: Vec<Decl>,
    params: Vec<(String, Type)>,
    consts: usize,
    b: Block,
) -> Result<FnGraph, LinearizeError> {
    FnGraph::compile_fn_body(&FnBody { decls, block: b }, &params, consts, &StringGenerator::default())
}

fn graph(b: Block) -> Result<FnGraph, LinearizeError> {
    graph_with(vec![], vec![], 0, b)
}

fn terms(g: &FnGraph) -> Vec<Terminator> {
    g.blocks.iter().map(|b| b.term).collect()
}

fn bodies(g: &FnGraph) -> Vec<Vec<usize>> {
    g.blocks.iter().map(|b| b.insts.clone()).collect()
}

#[test]
fn empty_body_returns_nothing() {
    let g = graph(block(vec![], None)).unwrap();
    assert_eq!(g.params, 0);
    assert!(g.slots.is_empty());
    assert!(g.insts.is_empty());
    assert_eq!(terms(&g), vec![Terminator::Branch(1), Terminator::Return(None)]);
    assert_eq!(g.blocks[0].label, "decl");
    assert_eq!(g.blocks[1].label, "entry");
}

#[test]
fn tail_value_is_returned() {
    let sum = Expression {
        ty: Some(i32_type()),
        value: ExpressionValue::Op(Op::Add, Box::new(num(1)), Box::new(num(2))),
    };
    let g = graph(block(vec![], Some(sum))).unwrap();
    assert_eq!(
        g.insts,
        vec![Instruction::ConstInt(1), Instruction::ConstInt(2), Instruction::Op(Op::Add, 0, 1)]
    );
    assert_eq!(bodies(&g), vec![vec![], vec![0, 1, 2]]);
    assert_eq!(terms(&g), vec![Terminator::Branch(1), Terminator::Return(Some(2))]);
}

#[test]
fn return_statement_ends_the_block() {
    let g = graph(block(vec![Statement::Return(Some(num(0)))], None)).unwrap();
    assert_eq!(g.insts, vec![Instruction::ConstInt(0)]);
    assert_eq!(terms(&g), vec![Terminator::Branch(1), Terminator::Return(Some(0))]);
    let g = graph(block(vec![Statement::Return(None)], None)).unwrap();
    assert_eq!(terms(&g), vec![Terminator::Branch(1), Terminator::Return(None)]);
}

#[test]
fn statement_after_return_is_rejected() {
    let b = block(
        vec![Statement::Return(None), Statement::Decl("x".to_string(), num(1))],
        None,
    );
    assert_eq!(
        graph_with(vec![slot_decl("x")], vec![], 0, b),
        Err(LinearizeError::UnreachableStatement)
    );
    let b = block(vec![Statement::Return(None), Statement::Return(None)], None);
    assert_eq!(graph(b), Err(LinearizeError::UnreachableStatement));
}

#[test]
fn statement_after_break_is_rejected() {
    let body = block(vec![Statement::Break(None), Statement::Eval(num(1))], None);
    let b = block(vec![Statement::Eval(loop_(body, None))], None);
    assert_eq!(graph(b), Err(LinearizeError::UnreachableStatement));
}

#[test]
fn tail_after_return_is_not_linearized() {
    let g = graph(block(vec![Statement::Return(None)], Some(num(9)))).unwrap();
    assert!(g.insts.is_empty());
    assert_eq!(terms(&g), vec![Terminator::Branch(1), Terminator::Return(None)]);
}

#[test]
fn parameters_are_stored_to_their_slots() {
    let params = vec![("a".to_string(), i32_type()), ("b".to_string(), i32_type())];
    let g = graph_with(vec![], params, 0, block(vec![], Some(load("b")))).unwrap();
    assert_eq!(g.params, 2);
    assert_eq!(g.slots.len(), 2);
    assert_eq!(g.slots[0].name, "a");
    assert_eq!(g.slots[1].name, "b");
    assert_eq!(g.slots[1].ty, i32_type());
    assert_eq!(
        g.insts,
        vec![
            Instruction::Param(0),
            Instruction::Store(0, None, 0),
            Instruction::Param(1),
            Instruction::Store(1, None, 2),
            Instruction::Load(1),
        ]
    );
    assert_eq!(bodies(&g), vec![vec![0, 1, 2, 3], vec![4]]);
    assert_eq!(terms(&g), vec![Terminator::Branch(1), Terminator::Return(Some(4))]);
}

#[test]
fn name_stands_for_the_last_slot_of_that_name() {
    let params = vec![("x".to_string(), i32_type())];
    let b = block(vec![Statement::Decl("x".to_string(), num(5))], Some(load("x")));
    let g = graph_with(vec![slot_decl("x")], params, 0, b).unwrap();
    assert_eq!(g.slots.len(), 2);
    assert_eq!(
        g.insts,
        vec![
            Instruction::Param(0),
            Instruction::Store(1, None, 0),
            Instruction::ConstInt(5),
            Instruction::Store(1, None, 2),
            Instruction::Load(1),
        ]
    );
}

#[test]
fn assignment_stores_and_yields_the_value() {
    let assign = Expression {
        ty: Some(i32_type()),
        value: ExpressionValue::Assign(Some(Op::Mul), local("x"), Box::new(num(3))),
    };
    let g = graph_with(vec![slot_decl("x")], vec![], 0, block(vec![], Some(assign))).unwrap();
    assert_eq!(g.insts, vec![Instruction::ConstInt(3), Instruction::Store(0, Some(Op::Mul), 0)]);
    assert_eq!(terms(&g)[1], Terminator::Return(Some(0)));
}

#[test]
fn call_yields_a_value_only_if_typed() {
    let typed = Expression {
        ty: Some(i32_type()),
        value: ExpressionValue::CallConcrete(
            Ident::UnmangledItem("f".to_string()),
            vec![num(1), num(2)],
        ),
    };
    let g = graph(block(vec![], Some(typed))).unwrap();
    assert_eq!(
        g.insts,
        vec![
            Instruction::ConstInt(1),
            Instruction::ConstInt(2),
            Instruction::Call(Ident::UnmangledItem("f".to_string()), vec![0, 1]),
        ]
    );
    assert_eq!(terms(&g)[1], Terminator::Return(Some(2)));
    let g = graph(block(vec![], Some(void_call("f", vec![])))).unwrap();
    assert_eq!(g.insts, vec![Instruction::Call(Ident::UnmangledItem("f".to_string()), vec![])]);
    assert_eq!(terms(&g)[1], Terminator::Return(None));
}

#[test]
fn string_constant_has_to_be_in_the_pool() {
    let s = Expression {
        ty: Some(Type::PtrConst(Box::new(Type::Primitive(Primitive::CChar)))),
        value: ExpressionValue::ConstStr(2),
    };
    let g = graph_with(vec![], vec![], 3, block(vec![], Some(s))).unwrap();
    assert_eq!(g.insts, vec![Instruction::ConstStr(2)]);
    let s = Expression { ty: None, value: ExpressionValue::ConstStr(3) };
    assert_eq!(
        graph_with(vec![], vec![], 3, block(vec![], Some(s))),
        Err(LinearizeError::UnknownConstant)
    );
}

#[test]
fn if_with_two_values_merges_them() {
    let e = if_(
        truth(),
        block(vec![], Some(num(10))),
        Some(block(vec![], Some(num(20)))),
        Some(i32_type()),
    );
    let g = graph(block(vec![], Some(e))).unwrap();
    assert_eq!(
        g.insts,
        vec![
            Instruction::ConstInt(1),
            Instruction::ConstInt(1),
            Instruction::Op(Op::Eq, 0, 1),
            Instruction::ConstInt(10),
            Instruction::ConstInt(20),
            Instruction::Phi(vec![(3, 2), (4, 3)]),
        ]
    );
    assert_eq!(bodies(&g), vec![vec![], vec![0, 1, 2], vec![3], vec![4], vec![5]]);
    assert_eq!(
        terms(&g),
        vec![
            Terminator::Branch(1),
            Terminator::CondBranch(2, 2, 3),
            Terminator::Branch(4),
            Terminator::Branch(4),
            Terminator::Return(Some(5)),
        ]
    );
}

#[test]
fn if_without_else_branches_past_the_block() {
    let e = if_(truth(), block(vec![Statement::Eval(num(10))], None), None, None);
    let g = graph(block(vec![Statement::Eval(e)], None)).unwrap();
    assert_eq!(
        terms(&g),
        vec![
            Terminator::Branch(1),
            Terminator::CondBranch(2, 2, 3),
            Terminator::Branch(3),
            Terminator::Return(None),
        ]
    );
}

#[test]
fn branch_that_returns_does_not_reach_the_join() {
    let e = if_(
        truth(),
        block(vec![Statement::Return(Some(num(10)))], None),
        Some(block(vec![], Some(num(20)))),
        Some(i32_type()),
    );
    let g = graph(block(vec![], Some(e))).unwrap();
    assert_eq!(
        terms(&g),
        vec![
            Terminator::Branch(1),
            Terminator::CondBranch(2, 2, 3),
            Terminator::Return(Some(3)),
            Terminator::Branch(4),
            Terminator::Return(Some(4)),
        ]
    );
    assert_eq!(g.insts.len(), 5);
}

#[test]
fn join_after_two_returns_is_unreachable() {
    let e = if_(
        truth(),
        block(vec![Statement::Return(None)], None),
        Some(block(vec![Statement::Return(None)], None)),
        None,
    );
    let g = graph(block(vec![Statement::Eval(e)], None)).unwrap();
    assert_eq!(
        terms(&g),
        vec![
            Terminator::Branch(1),
            Terminator::CondBranch(2, 2, 3),
            Terminator::Return(None),
            Terminator::Return(None),
            Terminator::Return(None),
        ]
    );
}

fn agree(b: Block) -> bool {
    FnGraph::branches_agree(
        &FnBody { decls: vec![], block: b },
        &vec![],
        0,
        &StringGenerator::default(),
    )
}

#[test]
fn branches_that_disagree_on_a_value_are_told_before_linearizing() {
    let e = if_(
        truth(),
        block(vec![], Some(num(10))),
        Some(block(vec![], None)),
        Some(i32_type()),
    );
    assert!(!agree(block(vec![], Some(e))));
    let e = if_(
        truth(),
        block(vec![], None),
        Some(block(vec![], Some(num(10)))),
        Some(i32_type()),
    );
    assert!(!agree(block(vec![], Some(e))));
    let e = if_(truth(), block(vec![], Some(num(10))), None, None);
    assert!(!agree(block(vec![], Some(e))));
}

#[test]
fn branches_that_agree_are_told_so() {
    let e = if_(
        truth(),
        block(vec![], Some(num(10))),
        Some(block(vec![], Some(num(20)))),
        Some(i32_type()),
    );
    assert!(agree(block(vec![], Some(e))));
    let e = if_(
        truth(),
        block(vec![Statement::Return(None)], None),
        Some(block(vec![], Some(num(20)))),
        Some(i32_type()),
    );
    assert!(agree(block(vec![], Some(e))));
    let e = if_(truth(), block(vec![], None), None, None);
    assert!(agree(block(vec![Statement::Eval(e)], None)));
    assert!(agree(block(vec![], None)));
    // Another inconsistency is none between branches.
    assert!(agree(block(vec![], Some(load("nowhere")))));
    // Linearization does not get to a conditional behind an inconsistency.
    let e = if_(truth(), block(vec![], Some(num(10))), None, None);
    let b = block(vec![Statement::Eval(load("nowhere")), Statement::Eval(e)], None);
    assert!(agree(b));
}

#[test]
fn join_table() {
    let j = |t, e, v| Join { then_falls: t, else_falls: e, value: v };
    assert_eq!(join_tails(Returned, Returned), j(false, false, JoinValue::Nothing));
    assert_eq!(join_tails(Returned, NoValue), j(false, true, JoinValue::Nothing));
    assert_eq!(join_tails(Returned, Value(4)), j(false, true, JoinValue::One(4)));
    assert_eq!(join_tails(NoValue, Returned), j(true, false, JoinValue::Nothing));
    assert_eq!(join_tails(NoValue, NoValue), j(true, true, JoinValue::Nothing));
    assert_eq!(join_tails(Value(3), Returned), j(true, false, JoinValue::One(3)));
    assert_eq!(join_tails(Value(3), Value(4)), j(true, true, JoinValue::Merge(3, 4)));
    for (t, e) in [
        (Returned, Returned),
        (Returned, NoValue),
        (Returned, Value(4)),
        (NoValue, Returned),
        (NoValue, NoValue),
        (Value(3), Returned),
        (Value(3), Value(4)),
    ] {
        assert!(tails_agree(t, e));
    }
    assert!(!tails_agree(NoValue, Value(4)));
    assert!(!tails_agree(Value(3), NoValue));
}

fn linearizer_with_slot(name: &str) -> Linearizer {
    let mut lin = Linearizer::new(0, vec![Slot { name: name.to_string(), ty: i32_type() }], 1);
    let start = lin.new_block("start".to_string());
    lin.at(start);
    lin
}

#[test]
fn nothing_is_linearized_after_a_return() {
    // { return; let x = 1; }
    let b = block(
        vec![Statement::Return(None), Statement::Decl("x".to_string(), num(1))],
        None,
    );
    let mut lin = linearizer_with_slot("x");
    let r = lin.compile_block(&b, "b".to_string(), &StringGenerator::default());
    assert_eq!(r, Err(LinearizeError::UnreachableStatement));
    assert!(lin.graph.insts.is_empty());
    assert_eq!(lin.graph.blocks.len(), 2);
    assert!(lin.graph.blocks[1].insts.is_empty());
    assert_eq!(lin.graph.blocks[1].term, Terminator::Return(None));
    assert_eq!(lin.current, 1);
}

#[test]
fn inconsistency_leaves_what_was_linearized_before_it() {
    // { x = 1; nowhere }
    let assign = Expression {
        ty: Some(i32_type()),
        value: ExpressionValue::Assign(None, local("x"), Box::new(num(1))),
    };
    let b = block(vec![Statement::Eval(assign)], Some(load("nowhere")));
    let mut lin = linearizer_with_slot("x");
    let r = lin.compile_block(&b, "b".to_string(), &StringGenerator::default());
    assert_eq!(r, Err(LinearizeError::UnknownLocal));
    assert_eq!(lin.graph.insts, vec![Instruction::ConstInt(1), Instruction::Store(0, None, 0)]);
    assert_eq!(lin.graph.blocks[1].insts, vec![0, 1]);
}

#[test]
fn loop_is_left_where_its_body_is_inconsistent() {
    let body = block(vec![Statement::Eval(load("nowhere"))], None);
    let e = loop_(body, Some(Type::Never));
    let mut lin = linearizer_with_slot("x");
    let r = lin.compile_expr(&e, &StringGenerator::default());
    assert_eq!(r, Err(LinearizeError::UnknownLocal));
    assert!(lin.loops.is_empty());
    // A break that lacks the value of its loop alters no loop.
    lin.enter_loop(0, true);
    assert_eq!(lin.leave_by_break(None), Err(LinearizeError::MissingValue));
    assert_eq!(lin.loops.len(), 1);
    assert!(lin.loops[0].incoming.is_empty());
}

#[test]
fn block_expression_gets_blocks_of_its_own() {
    let inner = Expression {
        ty: Some(i32_type()),
        value: ExpressionValue::Block(Box::new(block(vec![], Some(num(4))))),
    };
    let g = graph(block(vec![], Some(inner))).unwrap();
    assert_eq!(bodies(&g), vec![vec![], vec![], vec![0], vec![]]);
    assert_eq!(
        terms(&g),
        vec![
            Terminator::Branch(1),
            Terminator::Branch(2),
            Terminator::Branch(3),
            Terminator::Return(Some(0)),
        ]
    );
}

#[test]
fn break_values_merge_after_the_loop() {
    let cond = if_(truth(), block(vec![Statement::Break(Some(num(5)))], None), None, None);
    let body = block(vec![Statement::Eval(cond), Statement::Break(Some(num(6)))], None);
    let g = graph(block(vec![], Some(loop_(body, Some(i32_type()))))).unwrap();
    // block 2 is where the loop goes on, block 3 the body, block 4 the
    // branch with the first break, block 5 the rest of the body.
    assert_eq!(
        terms(&g),
        vec![
            Terminator::Branch(1),
            Terminator::Branch(3),
            Terminator::Return(Some(5)),
            Terminator::CondBranch(2, 4, 5),
            Terminator::Branch(2),
            Terminator::Branch(2),
        ]
    );
    assert_eq!(g.insts[5], Instruction::Phi(vec![(3, 4), (4, 5)]));
    assert_eq!(g.blocks[2].insts, vec![5]);
}

#[test]
fn loop_body_branches_back_to_its_start() {
    let g = graph(block(vec![], Some(loop_(block(vec![], None), Some(Type::Never))))).unwrap();
    assert_eq!(
        terms(&g),
        vec![
            Terminator::Branch(1),
            Terminator::Branch(3),
            Terminator::Return(None),
            Terminator::Branch(3),
        ]
    );
    assert!(g.insts.is_empty());
}

#[test]
fn plain_break_carries_nothing() {
    let body = block(vec![Statement::Break(None)], None);
    let g = graph(block(vec![Statement::Eval(loop_(body, None))], None)).unwrap();
    assert!(g.insts.is_empty());
    assert_eq!(
        terms(&g),
        vec![
            Terminator::Branch(1),
            Terminator::Branch(3),
            Terminator::Return(None),
            Terminator::Branch(2),
        ]
    );
}

#[test]
fn break_needs_a_loop_and_a_value_where_the_loop_has_one() {
    assert_eq!(
        graph(block(vec![Statement::Break(None)], None)),
        Err(LinearizeError::BreakOutsideLoop)
    );
    let body = block(vec![Statement::Break(None)], None);
    assert_eq!(
        graph(block(vec![], Some(loop_(body, Some(i32_type()))))),
        Err(LinearizeError::MissingValue)
    );
}

#[test]
fn missing_values_are_inconsistent() {
    let sum = Expression {
        ty: Some(i32_type()),
        value: ExpressionValue::Op(Op::Add, Box::new(void_call("f", vec![])), Box::new(num(2))),
    };
    assert_eq!(graph(block(vec![], Some(sum))), Err(LinearizeError::MissingValue));
    let b = block(vec![Statement::Decl("x".to_string(), void_call("f", vec![]))], None);
    assert_eq!(graph_with(vec![slot_decl("x")], vec![], 0, b), Err(LinearizeError::MissingValue));
    let b = block(vec![Statement::Return(Some(void_call("f", vec![])))], None);
    assert_eq!(graph(b), Err(LinearizeError::MissingValue));
    let b = block(vec![Statement::Eval(void_call("g", vec![void_call("f", vec![])]))], None);
    assert_eq!(graph(b), Err(LinearizeError::MissingValue));
    let e = if_(void_call("f", vec![]), block(vec![], None), None, None);
    assert_eq!(graph(block(vec![Statement::Eval(e)], None)), Err(LinearizeError::MissingValue));
}

#[test]
fn places_have_to_be_locals_with_slots() {
    assert_eq!(graph(block(vec![], Some(load("x")))), Err(LinearizeError::UnknownLocal));
    let b = block(vec![Statement::Decl("x".to_string(), num(1))], None);
    assert_eq!(graph(b), Err(LinearizeError::UnknownLocal));
    let item = Expression {
        ty: Some(i32_type()),
        value: ExpressionValue::LExpr(LExpression {
            ty: i32_type(),
            mutable: true,
            value: LExpressionValue::Var(Ident::UnmangledItem("x".to_string())),
        }),
    };
    assert_eq!(graph(block(vec![], Some(item))), Err(LinearizeError::UnsupportedPlace));
    let bad = Decl { name: Ident::UnmangledItem("x".to_string()), mutable: true, ty: i32_type() };
    assert_eq!(
        graph_with(vec![bad], vec![], 0, block(vec![], None)),
        Err(LinearizeError::UnsupportedPlace)
    );
}

fn module(fn_decls: Vec<DeclFn>, fn_defs: Vec<DefFn>) -> Module {
    Module {
        name: Ident::UnmangledItem("unit".to_string()),
        fn_decls,
        fn_defs,
        consts: Constants { strings: vec![(b"s".to_vec(), true)] },
        entry: None,
    }
}

#[test]
fn every_defined_function_gets_a_graph() {
    let sig = DeclFn {
        id: Ident::UnmangledItem("f".to_string()),
        params: vec![("a".to_string(), i32_type())],
        varadic: false,
        returns: Some(i32_type()),
    };
    let def = DefFn {
        id: Ident::UnmangledItem("f".to_string()),
        body: FnBody { decls: vec![], block: block(vec![], Some(load("a"))) },
    };
    let p = Program::compile_lir_module(&module(vec![sig], vec![def]), &StringGenerator::default())
        .unwrap();
    assert!(p.entry.is_none());
    assert_eq!(p.fn_defs.len(), 1);
    assert_eq!(p.fn_defs[0].params, 1);
    assert_eq!(
        p.fn_defs[0].insts,
        vec![Instruction::Param(0), Instruction::Store(0, None, 0), Instruction::Load(0)]
    );
}

#[test]
fn defined_function_needs_a_signature() {
    let def = DefFn {
        id: Ident::UnmangledItem("f".to_string()),
        body: FnBody { decls: vec![], block: block(vec![], None) },
    };
    let r = Program::compile_lir_module(&module(vec![], vec![def]), &StringGenerator::default());
    assert_eq!(r.err(), Some(LinearizeError::UnknownFunction));
}
