use lokc::ast;
use lokc::grammar::{Expected, ParseError};
use lokc::lexer::{lex, Token, TokenDiscriminant, TokenMeta};
use lokc::parser::{parse, parse_numeral, LokFileParser};
use lokc::types::Op;

fn id(s: &str) -> Token {
    Token::Identifier(s.to_string())
}

fn number(s: &str) -> Token {
    Token::Integer(s.to_string())
}

fn path(s: &str) -> Vec<String> {
    vec![s.to_string()]
}

fn named(s: &str) -> ast::Type {
    ast::Type::Name(path(s))
}

fn entry_with(body: Vec<Token>) -> Vec<Token> {
    let mut tokens = vec![Token::Entry, Token::OpenBrace];
    tokens.extend(body);
    tokens.push(Token::CloseBrace);
    tokens
}

fn entry_body(tokens: Vec<Token>) -> ast::Block {
    let mut decls = parse(&entry_with(tokens)).expect("the tokens parse");
    assert_eq!(decls.len(), 1);
    match decls.pop().unwrap() {
        ast::TopLevelDecl::Def(ast::TopLevelDef::Entry(e)) => {
            assert!(e.returns.is_none());
            e.body
        },
        other => panic!("unexpected declaration {:?}", other),
    }
}

fn tail(tokens: Vec<Token>) -> String {
    format!("{:?}", entry_body(tokens).tail.expect("a tail"))
}

fn show(e: ast::Expression) -> String {
    format!("{:?}", e)
}

fn num(n: u64) -> ast::Expression {
    ast::Expression::Int(n)
}

fn var(s: &str) -> ast::Expression {
    ast::Expression::LVar(path(s))
}

fn op(o: Op, l: ast::Expression, r: ast::Expression) -> ast::Expression {
    ast::Expression::Op(o, Box::new(l), Box::new(r))
}

fn extern_with(params: Vec<Token>, rest: Vec<Token>) -> Vec<Token> {
    let mut tokens = vec![Token::Extern, Token::Fn, id("f"), Token::OpenPar];
    tokens.extend(params);
    tokens.extend(rest);
    tokens
}

fn declared(tokens: Vec<Token>) -> ast::FnExtern {
    let mut decls = parse(&tokens).expect("the tokens parse");
    assert_eq!(decls.len(), 1);
    match decls.pop().unwrap() {
        ast::TopLevelDecl::FnExtern(f) => f,
        other => panic!("unexpected declaration {:?}", other),
    }
}

fn types(ts: &[(Option<String>, ast::Type)]) -> String {
    format!("{:?}", ts)
}

#[test]
fn numerals_are_decimal_and_fit_64_bits() {
    assert_eq!(parse_numeral(&"0".to_string()), Some(0));
    assert_eq!(parse_numeral(&"007".to_string()), Some(7));
    assert_eq!(parse_numeral(&"+42".to_string()), Some(42));
    assert_eq!(parse_numeral(&"18446744073709551615".to_string()), Some(u64::MAX));
    assert_eq!(parse_numeral(&"18446744073709551616".to_string()), None);
    assert_eq!(parse_numeral(&"99999999999999999999999".to_string()), None);
    assert_eq!(parse_numeral(&"".to_string()), None);
    assert_eq!(parse_numeral(&"+".to_string()), None);
    assert_eq!(parse_numeral(&"-1".to_string()), None);
    assert_eq!(parse_numeral(&"1_000".to_string()), None);
    assert_eq!(parse_numeral(&"12a".to_string()), None);
    assert_eq!(parse_numeral(&"++1".to_string()), None);
    for s in ["0", "007", "+42", "18446744073709551615", "18446744073709551616", "", "+", "-1"] {
        assert_eq!(parse_numeral(&s.to_string()), s.parse::<u64>().ok());
    }
}

#[test]
fn empty_file_has_no_declarations() {
    assert!(parse(&vec![]).unwrap().is_empty());
    assert!(LokFileParser::new().parse(&vec![]).unwrap().is_empty());
}

#[test]
fn file_is_a_list_of_declarations() {
    let mut tokens = extern_with(vec![], vec![Token::ClosePar, Token::Semicolon]);
    tokens.extend(entry_with(vec![]));
    tokens.extend(extern_with(vec![], vec![Token::ClosePar, Token::Semicolon]));
    let decls = LokFileParser::new().parse(&tokens).unwrap();
    assert_eq!(decls.len(), 3);
    assert!(matches!(decls[0], ast::TopLevelDecl::FnExtern(_)));
    assert!(matches!(decls[1], ast::TopLevelDecl::Def(ast::TopLevelDef::Entry(_))));
    assert!(matches!(decls[2], ast::TopLevelDecl::FnExtern(_)));
}

#[test]
fn declaration_with_parameters_and_result() {
    // extern fn f(a i32, *const c_char, ...) -> c_int;
    let f = declared(extern_with(
        vec![
            id("a"),
            id("i32"),
            Token::Comma,
            Token::Star,
            Token::Const,
            id("c_char"),
            Token::Comma,
            Token::TplDot,
        ],
        vec![Token::ClosePar, Token::SingleArrow, id("c_int"), Token::Semicolon],
    ));
    assert_eq!(f.name, "f");
    assert!(f.varadic);
    assert_eq!(
        types(&f.params),
        types(&[
            (Some("a".to_string()), named("i32")),
            (None, ast::Type::PtrConst(Box::new(named("c_char")))),
        ])
    );
    assert_eq!(format!("{:?}", f.returns), format!("{:?}", Some(named("c_int"))));
}

#[test]
fn declaration_without_parameters_or_result() {
    let f = declared(extern_with(vec![], vec![Token::ClosePar, Token::Semicolon]));
    assert!(f.params.is_empty());
    assert!(!f.varadic);
    assert!(f.returns.is_none());
    let f = declared(extern_with(vec![Token::TplDot], vec![Token::ClosePar, Token::Semicolon]));
    assert!(f.params.is_empty());
    assert!(f.varadic);
}

#[test]
fn every_form_of_type() {
    let f = declared(extern_with(
        vec![
            Token::Star,
            Token::Mut,
            id("u8"),
            Token::Comma,
            Token::Star,
            Token::Dyn,
            Token::Const,
            id("u8"),
            Token::Comma,
            Token::Star,
            Token::Dyn,
            Token::Mut,
            id("u8"),
            Token::Comma,
            Token::OpenBracket,
            id("u8"),
            Token::CloseBracket,
            Token::Comma,
            Token::OpenBracket,
            id("u8"),
            Token::Semicolon,
            number("16"),
            Token::CloseBracket,
            Token::Comma,
            Token::OpenPar,
            Token::ClosePar,
            Token::Comma,
            Token::OpenPar,
            id("a"),
            Token::DblColon,
            id("b"),
            id("c"),
            Token::ClosePar,
            Token::Comma,
            id("x"),
            Token::OpenPar,
            id("y"),
            Token::ClosePar,
        ],
        vec![Token::ClosePar, Token::Semicolon],
    ));
    let u8t = || Box::new(named("u8"));
    assert_eq!(
        types(&f.params),
        types(&[
            (None, ast::Type::PtrMut(u8t())),
            (None, ast::Type::PtrDynConst(u8t())),
            (None, ast::Type::PtrDynMut(u8t())),
            (None, ast::Type::Slice(u8t())),
            (None, ast::Type::Arr(u8t(), 16)),
            (None, ast::Type::Tuple(vec![])),
            (
                None,
                ast::Type::Tuple(vec![
                    ast::Type::Name(vec!["a".to_string(), "b".to_string()]),
                    named("c"),
                ])
            ),
            (Some("x".to_string()), ast::Type::Tuple(vec![named("y")])),
        ])
    );
}

#[test]
fn entry_with_result_type() {
    let tokens = vec![
        Token::Entry,
        Token::SingleArrow,
        id("i32"),
        Token::OpenBrace,
        Token::Return,
        number("0"),
        Token::Semicolon,
        Token::CloseBrace,
    ];
    let decls = parse(&tokens).unwrap();
    match &decls[0] {
        ast::TopLevelDecl::Def(ast::TopLevelDef::Entry(e)) => {
            assert_eq!(format!("{:?}", e.returns), format!("{:?}", Some(named("i32"))));
            assert!(e.body.tail.is_none());
            assert_eq!(
                format!("{:?}", e.body.statements),
                format!("{:?}", vec![ast::Statement::Return(Some(num(0)))])
            );
        },
        other => panic!("unexpected declaration {:?}", other),
    }
}

#[test]
fn statements_and_tail() {
    let b = entry_body(vec![
        id("a"),
        Token::Semicolon,
        Token::Return,
        Token::Semicolon,
        number("1"),
        Token::Semicolon,
        id("b"),
    ]);
    assert_eq!(
        format!("{:?}", b.statements),
        format!(
            "{:?}",
            vec![
                ast::Statement::Expression(var("a")),
                ast::Statement::Return(None),
                ast::Statement::Expression(num(1)),
            ]
        )
    );
    assert_eq!(format!("{:?}", b.tail), format!("{:?}", Some(var("b"))));
    let b = entry_body(vec![]);
    assert!(b.statements.is_empty());
    assert!(b.tail.is_none());
}

#[test]
fn operators_associate_to_the_left_and_factors_bind_tighter() {
    // 1 - 2 - 3
    assert_eq!(
        tail(vec![number("1"), Token::Hyphen, number("2"), Token::Hyphen, number("3")]),
        show(op(Op::Sub, op(Op::Sub, num(1), num(2)), num(3)))
    );
    // 1 + 2 * 3 % 4 - 5 / 6
    assert_eq!(
        tail(vec![
            number("1"),
            Token::Plus,
            number("2"),
            Token::Star,
            number("3"),
            Token::Percent,
            number("4"),
            Token::Hyphen,
            number("5"),
            Token::Slash,
            number("6"),
        ]),
        show(op(
            Op::Sub,
            op(Op::Add, num(1), op(Op::Rem, op(Op::Mul, num(2), num(3)), num(4))),
            op(Op::Div, num(5), num(6)),
        ))
    );
}

#[test]
fn calls_take_argument_lists() {
    let call = |f: ast::Expression, args: Vec<ast::Expression>| {
        ast::Expression::Call(Box::new(f), args)
    };
    // f()
    assert_eq!(tail(vec![id("f"), Token::OpenPar, Token::ClosePar]), show(call(var("f"), vec![])));
    // f(1, a::b,)(c"s")
    assert_eq!(
        tail(vec![
            id("f"),
            Token::OpenPar,
            number("1"),
            Token::Comma,
            id("a"),
            Token::DblColon,
            id("b"),
            Token::Comma,
            Token::ClosePar,
            Token::OpenPar,
            Token::CStaticString(b"s".to_vec()),
            Token::ClosePar,
        ]),
        show(call(
            call(
                var("f"),
                vec![num(1), ast::Expression::LVar(vec!["a".to_string(), "b".to_string()])]
            ),
            vec![ast::Expression::CStringRef(b"s".to_vec())],
        ))
    );
    // f(1 + 2) * 3
    assert_eq!(
        tail(vec![
            id("f"),
            Token::OpenPar,
            number("1"),
            Token::Plus,
            number("2"),
            Token::ClosePar,
            Token::Star,
            number("3"),
        ]),
        show(op(Op::Mul, call(var("f"), vec![op(Op::Add, num(1), num(2))]), num(3)))
    );
}

fn fails(tokens: Vec<Token>) -> ParseError {
    parse(&tokens).err().expect("the tokens do not parse")
}

#[test]
fn errors_name_what_was_expected_and_where() {
    let unexpected = |expected, found| ParseError::Unexpected { expected, found };
    assert_eq!(fails(vec![Token::Fn]), unexpected(Expected::Declaration, 0));
    assert_eq!(fails(vec![Token::Eof]), unexpected(Expected::Declaration, 0));
    assert_eq!(fails(vec![Token::Extern]), ParseError::Eof { expected: Expected::Fn });
    assert_eq!(fails(vec![Token::Extern, Token::Fn, Token::Fn]), unexpected(Expected::Identifier, 2));
    assert_eq!(
        fails(vec![Token::Extern, Token::Fn, id("f"), Token::Semicolon]),
        unexpected(Expected::OpenPar, 3)
    );
    assert_eq!(
        fails(extern_with(vec![], vec![])),
        ParseError::Eof { expected: Expected::ClosePar }
    );
    assert_eq!(
        fails(extern_with(vec![id("a"), id("b"), id("c")], vec![Token::ClosePar])),
        unexpected(Expected::ClosePar, 6)
    );
    assert_eq!(
        fails(extern_with(vec![Token::Comma], vec![Token::ClosePar])),
        unexpected(Expected::Type, 4)
    );
    assert_eq!(
        fails(extern_with(vec![], vec![Token::ClosePar])),
        ParseError::Eof { expected: Expected::Semicolon }
    );
    assert_eq!(
        fails(extern_with(vec![], vec![Token::ClosePar, Token::SingleArrow, Token::Semicolon])),
        unexpected(Expected::Type, 6)
    );
    assert_eq!(
        fails(extern_with(vec![Token::Star, id("u8")], vec![])),
        unexpected(Expected::ConstOrMut, 5)
    );
    assert_eq!(
        fails(extern_with(vec![Token::Star, Token::Dyn, id("u8")], vec![])),
        unexpected(Expected::ConstOrMut, 6)
    );
    assert_eq!(
        fails(extern_with(vec![Token::OpenBracket, id("u8"), Token::Comma], vec![])),
        unexpected(Expected::ArrayEnd, 6)
    );
    assert_eq!(
        fails(extern_with(vec![Token::OpenBracket, id("u8"), Token::Semicolon, id("n")], vec![])),
        unexpected(Expected::Integer, 7)
    );
    assert_eq!(
        fails(extern_with(
            vec![Token::OpenBracket, id("u8"), Token::Semicolon, number("1"), Token::Comma],
            vec![]
        )),
        unexpected(Expected::CloseBracket, 8)
    );
    assert_eq!(
        fails(extern_with(
            vec![Token::OpenBracket, id("u8"), Token::Semicolon, number("99999999999999999999")],
            vec![]
        )),
        ParseError::BigInt { found: 7 }
    );
    assert_eq!(
        fails(extern_with(vec![id("a"), Token::DblColon, Token::Comma], vec![])),
        unexpected(Expected::Identifier, 6)
    );
    assert_eq!(fails(vec![Token::Entry]), ParseError::Eof { expected: Expected::OpenBrace });
    assert_eq!(fails(vec![Token::Entry, Token::Semicolon]), unexpected(Expected::OpenBrace, 1));
    assert_eq!(
        fails(vec![Token::Entry, Token::OpenBrace]),
        ParseError::Eof { expected: Expected::StatementEnd }
    );
    assert_eq!(
        fails(entry_with(vec![number("1"), number("2")])),
        unexpected(Expected::StatementEnd, 3)
    );
    assert_eq!(fails(entry_with(vec![Token::Plus])), unexpected(Expected::Expression, 2));
    assert_eq!(
        fails(entry_with(vec![number("1"), Token::Plus])),
        unexpected(Expected::Expression, 4)
    );
    assert_eq!(
        fails(vec![Token::Entry, Token::OpenBrace, number("1"), Token::Star]),
        ParseError::Eof { expected: Expected::Expression }
    );
    assert_eq!(
        fails(entry_with(vec![Token::Return, number("1")])),
        unexpected(Expected::Semicolon, 4)
    );
    assert_eq!(
        fails(entry_with(vec![id("f"), Token::OpenPar, number("1"), number("2")])),
        unexpected(Expected::ArgumentEnd, 5)
    );
    assert_eq!(
        fails(vec![Token::Entry, Token::OpenBrace, id("f"), Token::OpenPar]),
        ParseError::Eof { expected: Expected::ClosePar }
    );
    assert_eq!(fails(entry_with(vec![number("1x")])), ParseError::BigInt { found: 2 });
    assert_eq!(
        fails(entry_with(vec![Token::LokStaticString(b"s".to_vec())])),
        unexpected(Expected::Expression, 2)
    );
}

#[test]
fn expectations_are_described_in_words() {
    assert_eq!(Expected::Declaration.description(), "`extern` or `entry`");
    assert_eq!(Expected::Type.description(), "type");
    assert_eq!(Expected::Expression.description(), "expression");
    assert_eq!(Expected::Identifier.description(), "identifier");
    assert_eq!(Expected::Integer.description(), "integer");
    assert_eq!(Expected::Fn.description(), "`fn`");
    assert_eq!(Expected::OpenPar.description(), "`(`");
    assert_eq!(Expected::ClosePar.description(), "`)`");
    assert_eq!(Expected::OpenBrace.description(), "`{`");
    assert_eq!(Expected::Semicolon.description(), "`;`");
    assert_eq!(Expected::ArrayEnd.description(), "`]` or `;`");
    assert_eq!(Expected::CloseBracket.description(), "`]`");
    assert_eq!(Expected::ConstOrMut.description(), "`const` or `mut`");
    assert_eq!(Expected::StatementEnd.description(), "`;` or `}`");
    assert_eq!(Expected::ArgumentEnd.description(), "`,` or `)`");
}

fn meta(token: TokenDiscriminant) -> TokenMeta {
    TokenMeta { token, length: 3, skipped: 1 }
}

#[test]
fn scanner_report_becomes_token() {
    let text = || "abc".to_string();
    let bytes = || b"xyz".to_vec();
    assert_eq!(
        lex(meta(TokenDiscriminant::Identifier), text(), bytes()),
        (Token::Identifier(text()), 3, 1)
    );
    assert_eq!(lex(meta(TokenDiscriminant::Integer), text(), bytes()).0, Token::Integer(text()));
    assert_eq!(lex(meta(TokenDiscriminant::Float), text(), bytes()).0, Token::Float(text()));
    assert_eq!(
        lex(meta(TokenDiscriminant::CStaticString), text(), bytes()).0,
        Token::CStaticString(bytes())
    );
    assert_eq!(
        lex(meta(TokenDiscriminant::LokStaticString), text(), bytes()).0,
        Token::LokStaticString(bytes())
    );
    assert_eq!(
        lex(meta(TokenDiscriminant::LokHeapString), text(), bytes()).0,
        Token::LokHeapString(bytes())
    );
    assert_eq!(
        lex(meta(TokenDiscriminant::CHeapString), text(), bytes()).0,
        Token::CHeapString(bytes())
    );
    assert_eq!(
        lex(meta(TokenDiscriminant::ByteStaticString), text(), bytes()).0,
        Token::ByteStaticString(bytes())
    );
    assert_eq!(
        lex(meta(TokenDiscriminant::ByteHeapString), text(), bytes()).0,
        Token::ByteHeapString(bytes())
    );
    assert_eq!(lex(meta(TokenDiscriminant::Eof), text(), bytes()), (Token::Eof, 3, 1));
    assert_eq!(lex(meta(TokenDiscriminant::TplDot), text(), bytes()).0, Token::TplDot);
    assert_eq!(lex(meta(TokenDiscriminant::Extern), text(), bytes()).0, Token::Extern);
}

#[test]
fn token_kind_is_the_token_without_what_it_carries() {
    assert_eq!(Token::Identifier("a".to_string()).kind(), TokenDiscriminant::Identifier);
    assert_eq!(Token::CHeapString(vec![]).kind(), TokenDiscriminant::CHeapString);
    assert_eq!(Token::DoubleArrow.kind(), TokenDiscriminant::DoubleArrow);
    assert_eq!(Token::Eof.kind(), TokenDiscriminant::Eof);
    assert!(TokenDiscriminant::Float.carries_text());
    assert!(!TokenDiscriminant::Float.carries_bytes());
    assert!(TokenDiscriminant::ByteHeapString.carries_bytes());
    assert!(!TokenDiscriminant::ByteHeapString.carries_text());
    assert!(!TokenDiscriminant::Let.carries_text());
    assert!(!TokenDiscriminant::Let.carries_bytes());
}
