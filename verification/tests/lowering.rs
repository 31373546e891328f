use lokc::ast;
use lokc::error::{LIRError, LIRErrorType};
use lokc::lower::Lowering;
use lokc::module::{count_entries, ModuleBuilder};
use lokc::scope::NameResolveMap;
use lokc::lir::{
    Block, Constants, Decl, DeclFn, Expression, ExpressionValue, LExpression, LExpressionValue,
    Module, Statement,
};
use lokc::types::{Ident, Op, Primitive, Type};

fn name(s: &str) -> Vec<String> {
    vec![s.to_string()]
}

fn ty(s: &str) -> ast::Type {
    ast::Type::Name(name(s))
}

fn num(n: u64) -> ast::Expression {
    ast::Expression::Int(n)
}

fn var(s: &str) -> ast::Expression {
    ast::Expression::LVar(name(s))
}

fn op(o: Op, l: ast::Expression, r: ast::Expression) -> ast::Expression {
    ast::Expression::Op(o, Box::new(l), Box::new(r))
}

fn truth() -> ast::Expression {
    op(Op::Eq, num(1), num(1))
}

fn call(f: &str, args: Vec<ast::Expression>) -> ast::Expression {
    ast::Expression::Call(Box::new(var(f)), args)
}

fn block(statements: Vec<ast::Statement>, tail: Option<ast::Expression>) -> ast::Block {
    ast::Block { statements, tail }
}

fn let_(n: &str, mutable: bool, t: Option<ast::Type>, value: ast::Expression) -> ast::Statement {
    ast::Statement::Decl { name: n.to_string(), mutable, expected_type: t, value }
}

fn eval(e: ast::Expression) -> ast::Statement {
    ast::Statement::Expression(e)
}

fn if_else(c: ast::Expression, t: ast::Block, e: Option<ast::Else>) -> ast::Expression {
    ast::Expression::If(ast::If(Box::new(c), Box::new(t), e))
}

fn entry(body: ast::Block) -> ast::TopLevelDecl {
    ast::TopLevelDecl::Def(ast::TopLevelDef::Entry(ast::Entry { returns: None, body }))
}

fn declared(n: &str, params: Vec<&str>, varadic: bool, returns: Option<&str>) -> ast::TopLevelDecl {
    ast::TopLevelDecl::FnExtern(ast::FnExtern {
        name: n.to_string(),
        params: params.into_iter().map(|p| (None, ty(p))).collect(),
        varadic,
        returns: returns.map(ty),
    })
}

fn lower(decls: Vec<ast::TopLevelDecl>) -> Result<Module, LIRError> {
    Module::from_ast(Ident::UnmangledItem("unit".to_string()), decls)
}

fn lower_entry(body: ast::Block) -> Result<Module, LIRError> {
    lower(vec![entry(body)])
}

fn kind(r: Result<Module, LIRError>) -> LIRErrorType {
    r.err().expect("lowering should fail").ty
}

fn entry_block(m: &Module) -> &Block {
    &m.entry.as_ref().expect("an entry point").body.block
}

fn i32_type() -> Option<Type> {
    Some(Type::Primitive(Primitive::I32))
}

fn const_int(n: u64) -> Expression {
    Expression { ty: i32_type(), value: ExpressionValue::ConstInt(n) }
}

#[test]
fn integer_literal_is_always_i32() {
    let m = lower_entry(block(vec![], Some(num(7)))).unwrap();
    assert_eq!(entry_block(&m).tail, Some(const_int(7)));
    let m = lower_entry(block(vec![], Some(num(u64::MAX)))).unwrap();
    assert_eq!(entry_block(&m).tail, Some(const_int(u64::MAX)));
}

#[test]
fn comparison_is_bool_and_arithmetic_is_i32() {
    for o in [Op::Eq, Op::Lt, Op::Le, Op::Ge, Op::Gt] {
        let m = lower_entry(block(vec![], Some(op(o, num(1), num(2))))).unwrap();
        let tail = entry_block(&m).tail.as_ref().unwrap();
        assert_eq!(tail.ty, Some(Type::Primitive(Primitive::Bool)));
    }
    for o in [Op::Add, Op::Sub, Op::Mul, Op::Div, Op::Rem] {
        let m = lower_entry(block(vec![], Some(op(o, num(1), num(2))))).unwrap();
        let tail = entry_block(&m).tail.as_ref().unwrap();
        assert_eq!(tail.ty, i32_type());
        assert_eq!(
            tail.value,
            ExpressionValue::Op(o, Box::new(const_int(1)), Box::new(const_int(2)))
        );
    }
}

#[test]
fn inner_declaration_shadows_and_outer_returns_after_block() {
    // { let x = 1; { let x: c_int = 2; x }; x }
    let inner = block(vec![let_("x", false, Some(ty("c_int")), num(2))], Some(var("x")));
    let body = block(
        vec![let_("x", false, None, num(1)), eval(ast::Expression::Block(Box::new(inner)))],
        Some(var("x")),
    );
    let m = lower_entry(body).unwrap();
    let b = entry_block(&m);
    let outer_tail = b.tail.as_ref().unwrap();
    assert_eq!(outer_tail.ty, i32_type());
    let inner_block = match &b.statements[1] {
        Statement::Eval(Expression { value: ExpressionValue::Block(inner), .. }) => inner,
        other => panic!("unexpected statement {:?}", other),
    };
    let inner_tail = inner_block.tail.as_ref().unwrap();
    assert_eq!(inner_tail.ty, Some(Type::Primitive(Primitive::CInt)));
    assert_eq!(
        inner_tail.value,
        ExpressionValue::LExpr(LExpression {
            ty: Type::Primitive(Primitive::CInt),
            mutable: false,
            value: LExpressionValue::Var(Ident::Local("x".to_string())),
        })
    );
    let decls = &m.entry.as_ref().unwrap().body.decls;
    assert_eq!(decls.len(), 2);
    assert_eq!(decls[0].ty, Type::Primitive(Primitive::I32));
    assert_eq!(decls[1].ty, Type::Primitive(Primitive::CInt));
}

#[test]
fn declaration_of_inner_block_is_gone_after_it() {
    // { { let y = 1; }; y }
    let inner = block(vec![let_("y", false, None, num(1))], None);
    let body = block(vec![eval(ast::Expression::Block(Box::new(inner)))], Some(var("y")));
    assert_eq!(kind(lower_entry(body)), LIRErrorType::UnresolvedIdent);
}

#[test]
fn unresolved_variable_and_function() {
    assert_eq!(
        kind(lower_entry(block(vec![], Some(var("nowhere"))))),
        LIRErrorType::UnresolvedIdent
    );
    assert_eq!(
        kind(lower_entry(block(vec![eval(call("nowhere", vec![]))], None))),
        LIRErrorType::UnresolvedIdent
    );
    let qualified = ast::Expression::LVar(vec!["a".to_string(), "b".to_string()]);
    assert_eq!(
        kind(lower_entry(block(vec![let_("a", false, None, num(1))], Some(qualified)))),
        LIRErrorType::UnresolvedIdent
    );
}

#[test]
fn callee_has_to_be_a_name() {
    let e = ast::Expression::Call(Box::new(num(1)), vec![]);
    assert_eq!(kind(lower_entry(block(vec![eval(e)], None))), LIRErrorType::UnresolvedIdent);
}

#[test]
fn if_with_equal_branch_types_has_that_type() {
    let e = if_else(
        truth(),
        block(vec![], Some(num(1))),
        Some(ast::Else::Block(Box::new(block(vec![], Some(num(2)))))),
    );
    let m = lower_entry(block(vec![], Some(e))).unwrap();
    let tail = entry_block(&m).tail.as_ref().unwrap();
    assert_eq!(tail.ty, i32_type());
    match &tail.value {
        ExpressionValue::If(i) => {
            assert_eq!(i.0.ty, Some(Type::Primitive(Primitive::Bool)));
            assert_eq!(i.1.tail, Some(const_int(1)));
            assert_eq!(i.2.as_ref().unwrap().tail, Some(const_int(2)));
        },
        other => panic!("unexpected value {:?}", other),
    }
}

#[test]
fn if_with_value_and_empty_else_is_rejected() {
    let e = if_else(
        truth(),
        block(vec![], Some(num(1))),
        Some(ast::Else::Block(Box::new(block(vec![], None)))),
    );
    assert_eq!(kind(lower_entry(block(vec![], Some(e)))), LIRErrorType::MismatchedTypes);
}

#[test]
fn if_with_value_and_no_else_is_rejected() {
    let e = if_else(truth(), block(vec![], Some(num(1))), None);
    assert_eq!(kind(lower_entry(block(vec![], Some(e)))), LIRErrorType::MismatchedTypes);
}

#[test]
fn if_without_else_has_no_type() {
    let e = if_else(truth(), block(vec![eval(num(1))], None), None);
    let m = lower_entry(block(vec![], Some(e))).unwrap();
    assert_eq!(entry_block(&m).tail.as_ref().unwrap().ty, None);
}

#[test]
fn if_branches_of_different_types_are_rejected() {
    let e = if_else(
        truth(),
        block(vec![], Some(num(1))),
        Some(ast::Else::Block(Box::new(block(vec![], Some(truth()))))),
    );
    assert_eq!(kind(lower_entry(block(vec![], Some(e)))), LIRErrorType::MismatchedTypes);
}

#[test]
fn else_if_becomes_block_around_nested_if() {
    let nested = ast::If(
        Box::new(truth()),
        Box::new(block(vec![], Some(num(2)))),
        Some(ast::Else::Block(Box::new(block(vec![], Some(num(3)))))),
    );
    let e = if_else(truth(), block(vec![], Some(num(1))), Some(ast::Else::If(Box::new(nested))));
    let m = lower_entry(block(vec![], Some(e))).unwrap();
    let tail = entry_block(&m).tail.as_ref().unwrap();
    let outer = match &tail.value {
        ExpressionValue::If(i) => i,
        other => panic!("unexpected value {:?}", other),
    };
    let else_block = outer.2.as_ref().unwrap();
    assert!(else_block.statements.is_empty());
    let inner = else_block.tail.as_ref().unwrap();
    assert_eq!(inner.ty, i32_type());
    assert!(matches!(inner.value, ExpressionValue::If(_)));
}

#[test]
fn condition_has_to_be_boolean() {
    let e = if_else(num(1), block(vec![], None), None);
    assert_eq!(kind(lower_entry(block(vec![eval(e)], None))), LIRErrorType::IllegalConditionExpr);
}

fn loop_of(statements: Vec<ast::Statement>) -> ast::Expression {
    ast::Expression::Loop(Box::new(block(statements, None)))
}

#[test]
fn breaks_with_equal_types_unify() {
    let e = loop_of(vec![
        ast::Statement::Break(Some(num(1))),
        ast::Statement::Break(Some(num(2))),
    ]);
    let m = lower_entry(block(vec![], Some(e))).unwrap();
    assert_eq!(entry_block(&m).tail.as_ref().unwrap().ty, i32_type());
}

#[test]
fn break_with_value_then_without_is_rejected() {
    let e = loop_of(vec![ast::Statement::Break(Some(num(1))), ast::Statement::Break(None)]);
    assert_eq!(kind(lower_entry(block(vec![], Some(e)))), LIRErrorType::MismatchedTypes);
}

#[test]
fn break_without_value_then_with_is_rejected() {
    let e = loop_of(vec![ast::Statement::Break(None), ast::Statement::Break(Some(num(1)))]);
    assert_eq!(kind(lower_entry(block(vec![], Some(e)))), LIRErrorType::MismatchedTypes);
}

#[test]
fn loop_without_break_is_never() {
    let m = lower_entry(block(vec![], Some(loop_of(vec![])))).unwrap();
    assert_eq!(entry_block(&m).tail.as_ref().unwrap().ty, Some(Type::Never));
}

#[test]
fn loop_with_plain_break_has_no_type() {
    let m = lower_entry(block(vec![], Some(loop_of(vec![ast::Statement::Break(None)])))).unwrap();
    assert_eq!(entry_block(&m).tail.as_ref().unwrap().ty, None);
}

#[test]
fn break_of_inner_loop_leaves_outer_loop_alone() {
    let inner = loop_of(vec![ast::Statement::Break(Some(num(1)))]);
    let outer = loop_of(vec![eval(inner), ast::Statement::Break(None)]);
    let m = lower_entry(block(vec![], Some(outer))).unwrap();
    assert_eq!(entry_block(&m).tail.as_ref().unwrap().ty, None);
}

#[test]
fn break_outside_loop_is_rejected() {
    assert_eq!(
        kind(lower_entry(block(vec![ast::Statement::Break(None)], None))),
        LIRErrorType::BreakOutsideLoop
    );
}

#[test]
fn call_with_wrong_argument_count_is_rejected() {
    let decls = |args: Vec<ast::Expression>| {
        vec![
            declared("two", vec!["i32", "i32"], false, None),
            entry(block(vec![eval(call("two", args))], None)),
        ]
    };
    assert_eq!(kind(lower(decls(vec![num(1)]))), LIRErrorType::ArgCountMismatch);
    assert_eq!(
        kind(lower(decls(vec![num(1), num(2), num(3)]))),
        LIRErrorType::ArgCountMismatch
    );
    assert!(lower(decls(vec![num(1), num(2)])).is_ok());
}

#[test]
fn variadic_call_coerces_only_declared_parameters() {
    let decls = vec![
        declared("many", vec!["c_int"], true, Some("c_int")),
        entry(block(vec![], Some(call("many", vec![num(1), num(2), num(3)])))),
    ];
    let m = lower(decls).unwrap();
    let tail = entry_block(&m).tail.as_ref().unwrap();
    assert_eq!(tail.ty, Some(Type::Primitive(Primitive::CInt)));
    match &tail.value {
        ExpressionValue::CallConcrete(id, args) => {
            assert_eq!(*id, Ident::UnmangledItem("many".to_string()));
            assert_eq!(args.len(), 3);
            assert_eq!(
                args[0],
                Expression {
                    ty: Some(Type::Primitive(Primitive::CInt)),
                    value: ExpressionValue::ConstInt(1),
                }
            );
            assert_eq!(args[1], const_int(2));
            assert_eq!(args[2], const_int(3));
        },
        other => panic!("unexpected value {:?}", other),
    }
}

#[test]
fn variadic_call_needs_declared_parameters() {
    let decls = vec![
        declared("many", vec!["c_int", "c_int"], true, None),
        entry(block(vec![eval(call("many", vec![num(1)]))], None)),
    ];
    assert_eq!(kind(lower(decls)), LIRErrorType::ArgCountMismatch);
}

#[test]
fn argument_of_wrong_type_is_rejected() {
    let decls = vec![
        declared("f", vec!["bool"], false, None),
        entry(block(vec![eval(call("f", vec![num(1)]))], None)),
    ];
    assert_eq!(kind(lower(decls)), LIRErrorType::MismatchedTypes);
}

#[test]
fn call_of_void_function_has_no_type() {
    let decls = vec![
        declared("f", vec![], false, None),
        entry(block(vec![], Some(call("f", vec![])))),
    ];
    let m = lower(decls).unwrap();
    assert_eq!(entry_block(&m).tail.as_ref().unwrap().ty, None);
}

#[test]
fn void_initialiser_is_rejected() {
    let decls = vec![
        declared("f", vec![], false, None),
        entry(block(vec![let_("x", false, None, call("f", vec![]))], None)),
    ];
    assert_eq!(kind(lower(decls)), LIRErrorType::VoidValue);
}

#[test]
fn declared_type_has_to_fit() {
    let body = block(vec![let_("x", false, Some(ty("bool")), num(1))], None);
    assert_eq!(kind(lower_entry(body)), LIRErrorType::MismatchedTypes);
    let body = block(vec![let_("x", false, Some(ty("i32")), num(1))], None);
    assert!(lower_entry(body).is_ok());
    let body = block(vec![let_("x", false, Some(ty("nothing")), num(1))], None);
    assert_eq!(kind(lower_entry(body)), LIRErrorType::UnresolvedIdent);
}

fn assign(target: ast::Expression, o: Option<Op>, value: ast::Expression) -> ast::Expression {
    ast::Expression::Assign(Box::new(target), o, Box::new(value))
}

#[test]
fn assignment_needs_mutable_local() {
    let body = block(
        vec![let_("x", false, None, num(1)), eval(assign(var("x"), None, num(2)))],
        None,
    );
    assert_eq!(kind(lower_entry(body)), LIRErrorType::ImmutAssign);
    let body = block(vec![eval(assign(num(1), None, num(2)))], None);
    assert_eq!(kind(lower_entry(body)), LIRErrorType::InvalidLValueExpr);
    let body = block(vec![eval(assign(var("x"), None, num(2)))], None);
    assert_eq!(kind(lower_entry(body)), LIRErrorType::UnresolvedIdent);
}

#[test]
fn assignment_coerces_value_and_keeps_operator() {
    let body = block(
        vec![let_("x", true, Some(ty("c_int")), num(1))],
        Some(assign(var("x"), Some(Op::Add), num(2))),
    );
    let m = lower_entry(body).unwrap();
    let tail = entry_block(&m).tail.as_ref().unwrap();
    assert_eq!(tail.ty, Some(Type::Primitive(Primitive::CInt)));
    match &tail.value {
        ExpressionValue::Assign(o, target, value) => {
            assert_eq!(*o, Some(Op::Add));
            assert!(target.mutable);
            assert_eq!(target.ty, Type::Primitive(Primitive::CInt));
            assert_eq!(
                **value,
                Expression {
                    ty: Some(Type::Primitive(Primitive::CInt)),
                    value: ExpressionValue::ConstInt(2),
                }
            );
        },
        other => panic!("unexpected value {:?}", other),
    }
}

#[test]
fn assignment_of_wrong_type_is_rejected() {
    let body = block(
        vec![let_("x", true, None, truth()), eval(assign(var("x"), None, num(2)))],
        None,
    );
    assert_eq!(kind(lower_entry(body)), LIRErrorType::MismatchedTypes);
}

#[test]
fn string_literals_get_successive_indices() {
    let body = block(
        vec![
            eval(ast::Expression::CStringRef(b"one".to_vec())),
            eval(ast::Expression::CStringRef(b"two".to_vec())),
        ],
        Some(ast::Expression::CStringRef(b"one".to_vec())),
    );
    let m = lower_entry(body).unwrap();
    let tail = entry_block(&m).tail.as_ref().unwrap();
    assert_eq!(
        tail.ty,
        Some(Type::PtrConst(Box::new(Type::Primitive(Primitive::CChar))))
    );
    assert_eq!(tail.value, ExpressionValue::ConstStr(2));
    assert_eq!(
        m.consts.strings,
        vec![(b"one".to_vec(), true), (b"two".to_vec(), true), (b"one".to_vec(), true)]
    );
    assert_eq!(m.consts.get(1), Some((&b"two".to_vec(), true)));
}

fn function(n: &str, params: Vec<(&str, &str)>, returns: Option<&str>, body: ast::Block) -> ast::TopLevelDecl {
    ast::TopLevelDecl::Def(ast::TopLevelDef::Def(ast::Def::Fn(ast::FnDef {
        name: n.to_string(),
        params: params.into_iter().map(|(p, t)| (p.to_string(), ty(t))).collect(),
        returns: returns.map(ty),
        body,
    })))
}

#[test]
fn function_defined_later_can_be_called() {
    let decls = vec![
        entry(block(vec![], Some(call("later", vec![num(1)])))),
        function("later", vec![("a", "i32")], Some("i32"), block(vec![], Some(var("a")))),
    ];
    let m = lower(decls).unwrap();
    assert_eq!(entry_block(&m).tail.as_ref().unwrap().ty, i32_type());
    assert_eq!(m.fn_decls.len(), 1);
    assert_eq!(m.fn_decls[0].id, Ident::UnmangledItem("later".to_string()));
    assert_eq!(
        m.fn_decls[0].params,
        vec![("a".to_string(), Type::Primitive(Primitive::I32))]
    );
    assert!(!m.fn_decls[0].varadic);
    assert_eq!(m.fn_defs.len(), 1);
    assert_eq!(m.fn_defs[0].id, Ident::UnmangledItem("later".to_string()));
    assert_eq!(m.name, Ident::UnmangledItem("unit".to_string()));
}

#[test]
fn parameters_are_immutable_locals() {
    let body = block(vec![eval(assign(var("a"), None, num(2)))], None);
    let decls = vec![function("f", vec![("a", "i32")], None, body)];
    assert_eq!(kind(lower(decls)), LIRErrorType::ImmutAssign);
}

#[test]
fn parameters_are_not_visible_in_other_functions() {
    let decls = vec![
        function("f", vec![("a", "i32")], None, block(vec![], None)),
        entry(block(vec![], Some(var("a")))),
    ];
    assert_eq!(kind(lower(decls)), LIRErrorType::UnresolvedIdent);
}

#[test]
fn definition_wins_over_declaration_of_same_name() {
    let decls = vec![
        function("f", vec![], Some("i32"), block(vec![], Some(num(1)))),
        declared("f", vec![], false, Some("bool")),
        entry(block(vec![], Some(call("f", vec![])))),
    ];
    let m = lower(decls).unwrap();
    assert_eq!(entry_block(&m).tail.as_ref().unwrap().ty, i32_type());
    assert_eq!(m.fn_decls.len(), 2);
}

#[test]
fn unnamed_parameter_of_declaration_has_empty_name() {
    let m = lower(vec![declared("f", vec!["u8"], true, Some("c_long"))]).unwrap();
    assert_eq!(m.fn_decls[0].params, vec![(String::new(), Type::Primitive(Primitive::U8))]);
    assert!(m.fn_decls[0].varadic);
    assert_eq!(m.fn_decls[0].returns, Some(Type::Primitive(Primitive::CLong)));
    assert!(m.entry.is_none());
}

#[test]
fn entry_points_are_counted() {
    assert_eq!(count_entries(&vec![]), 0);
    assert_eq!(count_entries(&vec![declared("f", vec![], false, None)]), 0);
    let decls = vec![
        entry(block(vec![], None)),
        declared("f", vec![], false, None),
        function("g", vec![], None, block(vec![], None)),
    ];
    assert_eq!(count_entries(&decls), 1);
    let decls = vec![entry(block(vec![], None)), entry(block(vec![], None))];
    assert_eq!(count_entries(&decls), 2);
}

fn context(fns: Vec<DeclFn>) -> Lowering {
    let mut names = NameResolveMap::new();
    names.set_functions(fns);
    Lowering::new(names, Constants::new())
}

fn void_function(n: &str) -> DeclFn {
    DeclFn { id: Ident::UnmangledItem(n.to_string()), params: vec![], varadic: false, returns: None }
}

#[test]
fn failed_block_closes_its_scope_and_declares_nothing() {
    // { let x = g(); }
    let mut ctx = context(vec![void_function("g")]);
    let b = block(vec![let_("x", false, None, call("g", vec![]))], None);
    let r = Block::from_ast(&b, &mut ctx);
    assert_eq!(r.err().map(|e| e.ty), Some(LIRErrorType::VoidValue));
    assert!(ctx.names.scope_stack.is_empty());
    assert!(ctx.decls.is_empty());
    assert!(ctx.loops.is_empty());
    assert_eq!(ctx.names.local_fns, vec![void_function("g")]);
}

#[test]
fn failed_block_keeps_outer_scopes_frame_for_frame() {
    // In scope: a. { let b = 1; { let c = 2; nowhere } }
    let mut ctx = context(vec![]);
    ctx.push_scope();
    let a = Decl {
        name: Ident::Local("a".to_string()),
        mutable: false,
        ty: Type::Primitive(Primitive::Bool),
    };
    ctx.declare("a".to_string(), a.clone());
    let inner = block(vec![let_("c", false, None, num(2))], Some(var("nowhere")));
    let b = block(
        vec![let_("b", false, None, num(1))],
        Some(ast::Expression::Block(Box::new(inner))),
    );
    let r = Block::from_ast(&b, &mut ctx);
    assert_eq!(r.err().map(|e| e.ty), Some(LIRErrorType::UnresolvedIdent));
    assert_eq!(ctx.names.scope_stack.len(), 1);
    assert_eq!(ctx.names.resolve_var(&"a".to_string()), Some(&a));
    assert_eq!(ctx.names.resolve_var(&"b".to_string()), None);
    assert_eq!(ctx.names.resolve_var(&"c".to_string()), None);
    // What was declared before the error stays recorded.
    assert_eq!(ctx.decls.len(), 3);
}

#[test]
fn break_outside_loop_leaves_no_loop() {
    let mut ctx = context(vec![]);
    let b = block(vec![ast::Statement::Break(None)], None);
    let r = Block::from_ast(&b, &mut ctx);
    assert_eq!(r.err().map(|e| e.ty), Some(LIRErrorType::BreakOutsideLoop));
    assert!(ctx.loops.is_empty());
    assert!(ctx.names.scope_stack.is_empty());
    assert!(ctx.decls.is_empty());
}

#[test]
fn failed_loop_is_left_and_mismatched_break_alters_no_loop() {
    // loop { break 1; break; }
    let mut ctx = context(vec![]);
    let e = loop_of(vec![ast::Statement::Break(Some(num(1))), ast::Statement::Break(None)]);
    let r = Expression::from_ast(&e, &mut ctx);
    assert_eq!(r.err().map(|e| e.ty), Some(LIRErrorType::MismatchedTypes));
    assert!(ctx.loops.is_empty());
    assert!(ctx.names.scope_stack.is_empty());
    ctx.enter_loop();
    assert!(ctx.note_break(Some(Type::Primitive(Primitive::I32))).is_ok());
    assert!(ctx.note_break(None).is_err());
    assert_eq!(ctx.loops.len(), 1);
    assert_eq!(ctx.loops[0].ty, Some(Some(Type::Primitive(Primitive::I32))));
}

#[test]
fn failed_function_closes_the_scope_of_its_parameters() {
    let mut builder = ModuleBuilder::new(vec![]);
    let f = ast::FnDef {
        name: "f".to_string(),
        params: vec![("a".to_string(), ty("i32"))],
        returns: None,
        body: block(vec![let_("x", false, None, num(1))], Some(var("nowhere"))),
    };
    let r = builder.lower_fn(&f);
    assert_eq!(r.err().map(|e| e.ty), Some(LIRErrorType::UnresolvedIdent));
    assert!(builder.ctx.names.scope_stack.is_empty());
    assert!(builder.ctx.decls.is_empty());
    assert!(builder.ctx.loops.is_empty());
    assert!(builder.fn_defs.is_empty());
    assert!(builder.entry.is_none());
}

#[test]
fn imports_lower_to_nothing() {
    let import = ast::TopLevelDecl::Decl(ast::Decl::Use(ast::Use {
        external: true,
        ty: None,
        path: b"std".to_vec(),
    }));
    let m = lower(vec![import]).unwrap();
    assert!(m.fn_decls.is_empty());
    assert!(m.fn_defs.is_empty());
    assert!(m.entry.is_none());
    assert!(m.consts.strings.is_empty());
}

#[test]
fn unknown_type_in_signature_is_rejected() {
    assert_eq!(
        kind(lower(vec![declared("f", vec!["mystery"], false, None)])),
        LIRErrorType::UnresolvedIdent
    );
    assert_eq!(
        kind(lower(vec![declared("f", vec![], false, Some("mystery"))])),
        LIRErrorType::UnresolvedIdent
    );
}

#[test]
fn return_statement_is_lowered_with_its_value() {
    let m = lower_entry(block(vec![ast::Statement::Return(Some(num(3)))], None)).unwrap();
    assert_eq!(entry_block(&m).statements, vec![Statement::Return(Some(const_int(3)))]);
    let m = lower_entry(block(vec![ast::Statement::Return(None)], None)).unwrap();
    assert_eq!(entry_block(&m).statements, vec![Statement::Return(None)]);
}
