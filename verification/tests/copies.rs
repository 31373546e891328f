use lokc::ast;
use lokc::lir::{
    Block, Expression, ExpressionValue, If, LExpression, LExpressionValue, Statement,
};
use lokc::types::{Ident, Op, Primitive, Type};

fn i32_type() -> Type {
    Type::Primitive(Primitive::I32)
}

fn num(n: u64) -> Expression {
    Expression { ty: Some(i32_type()), value: ExpressionValue::ConstInt(n) }
}

fn place(name: &str) -> LExpression {
    LExpression {
        ty: i32_type(),
        mutable: true,
        value: LExpressionValue::Var(Ident::Local(name.to_string())),
    }
}

fn tree() -> Expression {
    let cond = Expression {
        ty: Some(Type::Primitive(Primitive::Bool)),
        value: ExpressionValue::Op(Op::Lt, Box::new(num(1)), Box::new(num(2))),
    };
    let then_block = Block {
        statements: vec![
            Statement::Decl("x".to_string(), num(3)),
            Statement::Eval(Expression {
                ty: Some(i32_type()),
                value: ExpressionValue::Assign(Some(Op::Add), place("x"), Box::new(num(4))),
            }),
            Statement::Break(None),
        ],
        tail: Some(Expression { ty: Some(i32_type()), value: ExpressionValue::LExpr(place("x")) }),
    };
    let else_block = Block {
        statements: vec![Statement::Return(Some(num(5)))],
        tail: Some(Expression {
            ty: Some(i32_type()),
            value: ExpressionValue::CallConcrete(
                Ident::UnmangledItem("f".to_string()),
                vec![num(6), Expression { ty: None, value: ExpressionValue::ConstStr(0) }],
            ),
        }),
    };
    let cond = Expression {
        ty: Some(i32_type()),
        value: ExpressionValue::If(If(
            Box::new(cond),
            Box::new(then_block),
            Some(Box::new(else_block)),
        )),
    };
    Expression {
        ty: None,
        value: ExpressionValue::Loop(Box::new(Block {
            statements: vec![Statement::Eval(Expression {
                ty: Some(i32_type()),
                value: ExpressionValue::Block(Box::new(Block {
                    statements: vec![],
                    tail: Some(cond),
                })),
            })],
            tail: None,
        })),
    }
}

#[test]
fn copy_of_lowered_tree_equals_the_tree() {
    let e = tree();
    assert_eq!(e.clone(), e);
    assert_eq!(e.value.clone(), e.value);
    let b = match &e.value {
        ExpressionValue::Loop(b) => b,
        other => panic!("unexpected value {:?}", other),
    };
    assert_eq!((**b).clone(), **b);
    assert_eq!(b.statements[0].clone(), b.statements[0]);
    assert_eq!(place("x").clone(), place("x"));
}

#[test]
fn copy_of_written_type_equals_the_type() {
    let t = ast::Type::Tuple(vec![
        ast::Type::Name(vec!["a".to_string(), "b".to_string()]),
        ast::Type::PtrDynMut(Box::new(ast::Type::Arr(
            Box::new(ast::Type::Slice(Box::new(ast::Type::Name(vec!["u8".to_string()])))),
            9,
        ))),
        ast::Type::PtrConst(Box::new(ast::Type::PtrMut(Box::new(ast::Type::PtrDynConst(
            Box::new(ast::Type::Tuple(vec![])),
        ))))),
    ]);
    assert_eq!(format!("{:?}", t.clone()), format!("{:?}", t));
}
