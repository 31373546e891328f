use lokc::ast;
use lokc::cfg::{Instruction, LinearizeError, Terminator};
use lokc::linearize::Program;
use lokc::lir::Module;
use lokc::types::{Ident, Op};
use unique_id::string::StringGenerator;

fn name(s: &str) -> Vec<String> {
    vec![s.to_string()]
}

fn entry(statements: Vec<ast::Statement>, tail: Option<ast::Expression>) -> ast::TopLevelDecl {
    ast::TopLevelDecl::Def(ast::TopLevelDef::Entry(ast::Entry {
        returns: Some(ast::Type::Name(name("i32"))),
        body: ast::Block { statements, tail },
    }))
}

fn compile(decls: Vec<ast::TopLevelDecl>) -> Result<Program, LinearizeError> {
    let module = Module::from_ast(Ident::UnmangledItem("unit".to_string()), decls)
        .expect("the file lowers");
    assert!(Program::branches_agree(&module, &StringGenerator::default()));
    Program::compile_lir_module(&module, &StringGenerator::default())
}

#[test]
fn puts_hello_and_return_zero() {
    let puts = ast::TopLevelDecl::FnExtern(ast::FnExtern {
        name: "puts".to_string(),
        params: vec![(
            Some("s".to_string()),
            ast::Type::PtrConst(Box::new(ast::Type::Name(name("c_char")))),
        )],
        varadic: false,
        returns: Some(ast::Type::Name(name("c_int"))),
    });
    let call = ast::Expression::Call(
        Box::new(ast::Expression::LVar(name("puts"))),
        vec![ast::Expression::CStringRef(b"hello".to_vec())],
    );
    let p = compile(vec![
        puts,
        entry(
            vec![
                ast::Statement::Expression(call),
                ast::Statement::Return(Some(ast::Expression::Int(0))),
            ],
            None,
        ),
    ])
    .unwrap();
    assert!(p.fn_defs.is_empty());
    let g = p.entry.unwrap();
    assert_eq!(
        g.insts,
        vec![
            Instruction::ConstStr(0),
            Instruction::Call(Ident::UnmangledItem("puts".to_string()), vec![0]),
            Instruction::ConstInt(0),
        ]
    );
    assert_eq!(g.blocks.len(), 2);
    assert_eq!(g.blocks[0].term, Terminator::Branch(1));
    assert_eq!(g.blocks[1].insts, vec![0, 1, 2]);
    assert_eq!(g.blocks[1].term, Terminator::Return(Some(2)));
}

#[test]
fn lowered_conditional_merges_two_equal_typed_values() {
    let truth = ast::Expression::Op(
        Op::Eq,
        Box::new(ast::Expression::Int(1)),
        Box::new(ast::Expression::Int(1)),
    );
    let cond = ast::Expression::If(ast::If(
        Box::new(truth),
        Box::new(ast::Block { statements: vec![], tail: Some(ast::Expression::Int(1)) }),
        Some(ast::Else::Block(Box::new(ast::Block {
            statements: vec![],
            tail: Some(ast::Expression::Int(2)),
        }))),
    ));
    let g = compile(vec![entry(vec![], Some(cond))]).unwrap().entry.unwrap();
    assert_eq!(g.insts.last(), Some(&Instruction::Phi(vec![(3, 2), (4, 3)])));
    assert_eq!(g.blocks[4].term, Terminator::Return(Some(5)));
}

#[test]
fn declaration_after_return_lowers_but_is_not_linearized() {
    let r = compile(vec![entry(
        vec![
            ast::Statement::Return(Some(ast::Expression::Int(0))),
            ast::Statement::Decl {
                name: "x".to_string(),
                mutable: false,
                expected_type: None,
                value: ast::Expression::Int(1),
            },
        ],
        None,
    )]);
    assert_eq!(r.err(), Some(LinearizeError::UnreachableStatement));
}

#[test]
fn loop_with_two_breaks_merges_their_values() {
    let body = ast::Block {
        statements: vec![
            ast::Statement::Expression(ast::Expression::If(ast::If(
                Box::new(ast::Expression::Op(
                    Op::Lt,
                    Box::new(ast::Expression::Int(1)),
                    Box::new(ast::Expression::Int(2)),
                )),
                Box::new(ast::Block {
                    statements: vec![ast::Statement::Break(Some(ast::Expression::Int(1)))],
                    tail: None,
                }),
                None,
            ))),
            ast::Statement::Break(Some(ast::Expression::Int(2))),
        ],
        tail: None,
    };
    let g = compile(vec![entry(vec![], Some(ast::Expression::Loop(Box::new(body))))])
        .unwrap()
        .entry
        .unwrap();
    assert_eq!(g.insts.last(), Some(&Instruction::Phi(vec![(3, 4), (4, 5)])));
    assert_eq!(g.blocks[2].term, Terminator::Return(Some(5)));
}

fn function(name: &str, param: &str, body_var: &str) -> ast::TopLevelDecl {
    ast::TopLevelDecl::Def(ast::TopLevelDef::Def(ast::Def::Fn(ast::FnDef {
        name: name.to_string(),
        params: vec![(param.to_string(), ast::Type::Name(vec!["i32".to_string()]))],
        returns: Some(ast::Type::Name(vec!["i32".to_string()])),
        body: ast::Block {
            statements: vec![],
            tail: Some(ast::Expression::LVar(vec![body_var.to_string()])),
        },
    })))
}

#[test]
fn function_is_linearized_with_the_signature_under_its_name() {
    let p = compile(vec![function("f", "a", "a"), function("g", "b", "b")]).unwrap();
    assert_eq!(p.fn_defs.len(), 2);
    assert_eq!(p.fn_defs[0].slots[0].name, "a");
    assert_eq!(p.fn_defs[1].slots[0].name, "b");
    assert_eq!(p.fn_defs[1].insts.last(), Some(&Instruction::Load(0)));
    // Of two functions with one name the later signature is the one in the
    // table, so the body of the first is linearized with the parameters of
    // the second.
    let r = compile(vec![function("f", "a", "a"), function("f", "b", "b")]);
    assert_eq!(r.err(), Some(LinearizeError::UnknownLocal));
}

fn truth() -> ast::Expression {
    ast::Expression::Op(
        Op::Eq,
        Box::new(ast::Expression::Int(1)),
        Box::new(ast::Expression::Int(1)),
    )
}

fn leaving_block() -> ast::Expression {
    // { return 0; 5 }
    ast::Expression::Block(Box::new(ast::Block {
        statements: vec![ast::Statement::Return(Some(ast::Expression::Int(0)))],
        tail: Some(ast::Expression::Int(5)),
    }))
}

#[test]
fn typed_branch_that_control_leaves_is_found_only_when_linearized() {
    // if 1 == 1 { 1 } else { { return 0; 5 } }
    let cond = ast::Expression::If(ast::If(
        Box::new(truth()),
        Box::new(ast::Block { statements: vec![], tail: Some(ast::Expression::Int(1)) }),
        Some(ast::Else::Block(Box::new(ast::Block {
            statements: vec![],
            tail: Some(leaving_block()),
        }))),
    ));
    let module =
        Module::from_ast(Ident::UnmangledItem("unit".to_string()), vec![entry(vec![], Some(cond))])
            .expect("the file lowers");
    assert!(!Program::branches_agree(&module, &StringGenerator::default()));
}

#[test]
fn typed_initialiser_that_control_leaves_is_found_only_when_linearized() {
    // let x = { return 0; 5 };
    let r = compile(vec![entry(
        vec![ast::Statement::Decl {
            name: "x".to_string(),
            mutable: false,
            expected_type: None,
            value: leaving_block(),
        }],
        None,
    )]);
    assert_eq!(r.err(), Some(LinearizeError::MissingValue));
}

#[test]
fn lowered_bodies_use_only_what_is_there() {
    // fn f(a: i32) -> i32 { let b = a; loop { if b == a { break "s"; } b = 1; } ; b }
    let body = ast::Block {
        statements: vec![
            ast::Statement::Decl {
                name: "b".to_string(),
                mutable: true,
                expected_type: None,
                value: ast::Expression::LVar(name("a")),
            },
            ast::Statement::Expression(ast::Expression::Loop(Box::new(ast::Block {
                statements: vec![
                    ast::Statement::Expression(ast::Expression::If(ast::If(
                        Box::new(ast::Expression::Op(
                            Op::Eq,
                            Box::new(ast::Expression::LVar(name("b"))),
                            Box::new(ast::Expression::LVar(name("a"))),
                        )),
                        Box::new(ast::Block {
                            statements: vec![ast::Statement::Break(Some(
                                ast::Expression::CStringRef(b"s".to_vec()),
                            ))],
                            tail: None,
                        }),
                        None,
                    ))),
                    ast::Statement::Expression(ast::Expression::Assign(
                        Box::new(ast::Expression::LVar(name("b"))),
                        None,
                        Box::new(ast::Expression::Int(1)),
                    )),
                ],
                tail: None,
            }))),
        ],
        tail: Some(ast::Expression::LVar(name("b"))),
    };
    let f = ast::TopLevelDecl::Def(ast::TopLevelDef::Def(ast::Def::Fn(ast::FnDef {
        name: "f".to_string(),
        params: vec![("a".to_string(), ast::Type::Name(name("i32")))],
        returns: Some(ast::Type::Name(name("i32"))),
        body,
    })));
    let p = compile(vec![f]).unwrap();
    let g = &p.fn_defs[0];
    assert_eq!(g.params, 1);
    assert_eq!(g.slots.len(), 2);
    assert_eq!(g.slots[0].name, "a");
    assert_eq!(g.slots[1].name, "b");
    for (i, inst) in g.insts.iter().enumerate() {
        match inst {
            Instruction::Load(slot) => assert!(*slot < 2),
            Instruction::Store(slot, _, v) => assert!(*slot < 2 && *v < i),
            Instruction::Op(_, l, r) => assert!(*l < i && *r < i),
            Instruction::Phi(incoming) => {
                assert!(incoming.iter().all(|(v, b)| *v < i && *b < g.blocks.len()))
            },
            Instruction::ConstStr(c) => assert_eq!(*c, 0),
            _ => {},
        }
    }
    for block in &g.blocks {
        assert!(block.insts.iter().all(|i| *i < g.insts.len()));
        match block.term {
            Terminator::Branch(to) => assert!(to < g.blocks.len()),
            Terminator::CondBranch(c, a, b) => {
                assert!(c < g.insts.len() && a < g.blocks.len() && b < g.blocks.len())
            },
            Terminator::Return(Some(v)) => assert!(v < g.insts.len()),
            _ => {},
        }
    }
}
