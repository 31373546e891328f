//! The parser: from the tokens of a file to its syntax tree.

use vstd::prelude::*;
use vstd::string::StrSliceExecFns;
use crate::ast;
use crate::ast::{
    syn_block, syn_expr, syn_exprs, syn_extern_params, syn_file, syn_opt_type, syn_stmts,
    syn_type, syn_types, view_path,
};
use crate::grammar::{
    Expected, ParseError, digit, digits_value, factor_op, kind_at, left, numeral, p_args,
    p_block, p_block_rest, p_call, p_call_rest, p_decl, p_entry, p_expr, p_extern, p_factor,
    p_factor_rest, p_file, p_int, p_param, p_params, p_path, p_path_rest, p_return, p_returns,
    p_sum_rest, p_tuple, p_type, p_value, parse_file, starts_type, sum_op, wrong,
};
use crate::lexer::{Token, TokenDiscriminant, view_tokens};
use crate::types::Op;

verus! {

/// Once a character is no digit, no longer prefix denotes a number.
pub proof fn lemma_digits_stay_invalid(s: Seq<char>, n: nat, m: nat)
    requires
        n <= m <= s.len(),
        digits_value(s, n).is_none(),
    ensures
        digits_value(s, m).is_none(),
    decreases m,
{
    if n < m {
        lemma_digits_stay_invalid(s, n, (m - 1) as nat);
    }
}

/// The number that a prefix denotes is not negative, and no longer prefix
/// denotes a smaller one.
pub proof fn lemma_digits_grow(s: Seq<char>, n: nat, m: nat)
    requires
        n <= m <= s.len(),
    ensures
        digits_value(s, n) matches Some(a) ==> a >= 0,
        digits_value(s, n).is_some() && digits_value(s, m).is_some() ==> digits_value(s, n).unwrap()
            <= digits_value(s, m).unwrap(),
    decreases m,
{
    if n > 0 {
        lemma_digits_grow(s, (n - 1) as nat, (n - 1) as nat);
    }
    if n < m {
        lemma_digits_grow(s, n, (m - 1) as nat);
        lemma_digits_grow(s, (m - 1) as nat, (m - 1) as nat);
        if digits_value(s, (m - 1) as nat).is_none() {
            lemma_digits_stay_invalid(s, (m - 1) as nat, m);
        }
    }
}

/// The number that a numeral denotes: decimal digits, with a `+` before
/// them or without. None if there is no digit, if there is anything but
/// digits, or if the number does not fit 64 bits.
pub fn parse_numeral(text: &String) -> (r: Option<u64>)
    ensures
        r == numeral(text@),
{
    let s = text.as_str();
    let n = s.unicode_len();
    let start: usize = if n > 0 && s.get_char(0) == '+' {
        1
    } else {
        0
    };
    if start == n {
        return None;
    }
    let ghost digits = if start == 1 {
        text@.skip(1)
    } else {
        text@
    };
    let mut v: u64 = 0;
    let mut i: usize = start;
    while i < n
        invariant
            start <= i <= n,
            start <= 1,
            n == text@.len(),
            s@ == text@,
            digits.len() == n - start,
            (start == 1) == (text@.len() > 0 && text@[0] == '+'),
            digits == if start == 1 {
                text@.skip(1)
            } else {
                text@
            },
            forall|j: int| 0 <= j < digits.len() ==> digits[j] == text@[j + start],
            digits_value(digits, (i - start) as nat) == Some(v as int),
        decreases n - i,
    {
        let c = s.get_char(i);
        let cv = c as u32;
        if cv < 48 || cv > 57 {
            proof {
                assert(digits[i - start] == c);
                assert(digits_value(digits, (i - start + 1) as nat).is_none());
                lemma_digits_stay_invalid(digits, (i - start + 1) as nat, digits.len());
            }
            return None;
        }
        let d = (cv - 48) as u64;
        proof {
            assert(digits[i - start] == c);
            assert(digit(c) == Some(d as int));
            assert(digits_value(digits, (i - start + 1) as nat) == Some(v as int * 10 + d as int));
        }
        if v > (u64::MAX - d) / 10 {
            proof {
                assert(v as int * 10 + d as int > u64::MAX);
                lemma_digits_grow(digits, (i - start + 1) as nat, digits.len());
            }
            return None;
        }
        v = v * 10 + d;
        i = i + 1;
    }
    Some(v)
}

/// The kind of the token at a position, if there is one.
fn kind_of(tokens: &Vec<Token>, pos: usize) -> (r: Option<TokenDiscriminant>)
    ensures
        r == kind_at(view_tokens(tokens@), pos as nat),
        r.is_some() <==> pos < tokens.len(),
{
    if pos < tokens.len() {
        Some(tokens[pos].kind())
    } else {
        None
    }
}

/// Whether the token at a position is of the given kind.
fn at(tokens: &Vec<Token>, pos: usize, kind: TokenDiscriminant) -> (r: bool)
    ensures
        r == (kind_at(view_tokens(tokens@), pos as nat) == Some(kind)),
        r ==> pos < tokens.len(),
{
    match kind_of(tokens, pos) {
        Some(k) => k == kind,
        None => false,
    }
}

/// The error for what stands at a position where something else is needed.
fn unexpected(tokens: &Vec<Token>, pos: usize, expected: Expected) -> (r: ParseError)
    ensures
        r == wrong(view_tokens(tokens@), pos as nat, expected),
{
    if pos < tokens.len() {
        ParseError::Unexpected { expected, found: pos }
    } else {
        ParseError::Eof { expected }
    }
}

/// The text that the token at a position carries.
fn text_at(tokens: &Vec<Token>, pos: usize) -> (r: String)
    requires
        pos < tokens.len(),
    ensures
        view_tokens(tokens@)[pos as int].kind.has_text() ==> r@ == view_tokens(
            tokens@,
        )[pos as int].text,
{
    match &tokens[pos] {
        Token::Identifier(text) | Token::Integer(text) | Token::Float(text) => text.clone(),
        _ => String::new(),
    }
}

/// The bytes that the token at a position carries.
fn bytes_at(tokens: &Vec<Token>, pos: usize) -> (r: Vec<u8>)
    requires
        pos < tokens.len(),
    ensures
        view_tokens(tokens@)[pos as int].kind.has_bytes() ==> r@ == view_tokens(
            tokens@,
        )[pos as int].bytes,
{
    match &tokens[pos] {
        Token::LokStaticString(bytes)
        | Token::LokHeapString(bytes)
        | Token::CStaticString(bytes)
        | Token::CHeapString(bytes)
        | Token::ByteStaticString(bytes)
        | Token::ByteHeapString(bytes) => crate::lower::copy_bytes(bytes),
        _ => Vec::new(),
    }
}

/// The integer at a position.
fn parse_int(tokens: &Vec<Token>, pos: usize) -> (r: Result<(u64, usize), ParseError>)
    ensures
        match p_int(view_tokens(tokens@), pos as nat) {
            Ok((v, p)) => r == Ok::<(u64, usize), ParseError>((v, p as usize)) && pos < p
                <= tokens.len(),
            Err(e) => r == Err::<(u64, usize), ParseError>(e),
        },
{
    if at(tokens, pos, TokenDiscriminant::Integer) {
        match parse_numeral(&text_at(tokens, pos)) {
            Some(n) => Ok((n, pos + 1)),
            None => Err(ParseError::BigInt { found: pos }),
        }
    } else {
        Err(unexpected(tokens, pos, Expected::Integer))
    }
}

/// The rest of a path after the segments `acc`.
fn parse_path_rest(tokens: &Vec<Token>, pos: usize, acc: Vec<String>) -> (r: Result<
    (Vec<String>, usize),
    ParseError,
>)
    requires
        pos <= tokens.len(),
    ensures
        match p_path_rest(view_tokens(tokens@), pos as nat, view_path(acc@)) {
            Ok((v, p)) => r matches Ok((x, q)) && view_path(x@) == v && q == p && pos <= q
                <= tokens.len(),
            Err(e) => r matches Err(x) && x == e,
        },
    decreases left(view_tokens(tokens@), pos as nat),
{
    if at(tokens, pos, TokenDiscriminant::DblColon) {
        if at(tokens, pos + 1, TokenDiscriminant::Identifier) {
            let mut acc = acc;
            let segment = text_at(tokens, pos + 1);
            assert(view_path(acc@.push(segment)) =~= view_path(acc@).push(segment@));
            acc.push(segment);
            parse_path_rest(tokens, pos + 2, acc)
        } else {
            Err(unexpected(tokens, pos + 1, Expected::Identifier))
        }
    } else {
        Ok((acc, pos))
    }
}

/// A path: names with `::` between them.
fn parse_path(tokens: &Vec<Token>, pos: usize) -> (r: Result<(Vec<String>, usize), ParseError>)
    ensures
        match p_path(view_tokens(tokens@), pos as nat) {
            Ok((v, p)) => r matches Ok((x, q)) && view_path(x@) == v && q == p && pos < q
                <= tokens.len(),
            Err(e) => r matches Err(x) && x == e,
        },
{
    if at(tokens, pos, TokenDiscriminant::Identifier) {
        let mut acc: Vec<String> = Vec::new();
        let segment = text_at(tokens, pos);
        acc.push(segment);
        assert(view_path(acc@) =~= seq![segment@]);
        parse_path_rest(tokens, pos + 1, acc)
    } else {
        Err(unexpected(tokens, pos, Expected::Identifier))
    }
}

/// A type.
fn parse_type(tokens: &Vec<Token>, pos: usize) -> (r: Result<(ast::Type, usize), ParseError>)
    ensures
        match p_type(view_tokens(tokens@), pos as nat) {
            Ok((v, p)) => r matches Ok((x, q)) && syn_type(x) == v && q == p && pos < q
                <= tokens.len(),
            Err(e) => r matches Err(x) && x == e,
        },
    decreases left(view_tokens(tokens@), pos as nat), 1nat,
{
    match kind_of(tokens, pos) {
        Some(TokenDiscriminant::Identifier) => match parse_path(tokens, pos) {
            Ok((path, p)) => Ok((ast::Type::Name(path), p)),
            Err(e) => Err(e),
        },
        Some(TokenDiscriminant::Star) => parse_pointer(tokens, pos),
        Some(TokenDiscriminant::OpenBracket) => parse_array(tokens, pos),
        Some(TokenDiscriminant::OpenPar) => {
            let none: Vec<ast::Type> = Vec::new();
            assert(syn_types(none@) =~= Seq::empty());
            match parse_tuple(tokens, pos + 1, none) {
                Ok((members, p)) => Ok((ast::Type::Tuple(members), p)),
                Err(e) => Err(e),
            }
        },
        _ => Err(unexpected(tokens, pos, Expected::Type)),
    }
}

/// A pointer type, which starts with the `*` at `pos`.
fn parse_pointer(tokens: &Vec<Token>, pos: usize) -> (r: Result<(ast::Type, usize), ParseError>)
    requires
        pos < tokens.len(),
        kind_at(view_tokens(tokens@), pos as nat) == Some(TokenDiscriminant::Star),
    ensures
        match p_type(view_tokens(tokens@), pos as nat) {
            Ok((v, p)) => r matches Ok((x, q)) && syn_type(x) == v && q == p && pos < q
                <= tokens.len(),
            Err(e) => r matches Err(x) && x == e,
        },
    decreases left(view_tokens(tokens@), pos as nat), 0nat,
{
    match kind_of(tokens, pos + 1) {
        Some(TokenDiscriminant::Const) => match parse_type(tokens, pos + 2) {
            Ok((t, p)) => Ok((ast::Type::PtrConst(Box::new(t)), p)),
            Err(e) => Err(e),
        },
        Some(TokenDiscriminant::Mut) => match parse_type(tokens, pos + 2) {
            Ok((t, p)) => Ok((ast::Type::PtrMut(Box::new(t)), p)),
            Err(e) => Err(e),
        },
        Some(TokenDiscriminant::Dyn) => match kind_of(tokens, pos + 2) {
            Some(TokenDiscriminant::Const) => match parse_type(tokens, pos + 3) {
                Ok((t, p)) => Ok((ast::Type::PtrDynConst(Box::new(t)), p)),
                Err(e) => Err(e),
            },
            Some(TokenDiscriminant::Mut) => match parse_type(tokens, pos + 3) {
                Ok((t, p)) => Ok((ast::Type::PtrDynMut(Box::new(t)), p)),
                Err(e) => Err(e),
            },
            _ => Err(unexpected(tokens, pos + 2, Expected::ConstOrMut)),
        },
        _ => Err(unexpected(tokens, pos + 1, Expected::ConstOrMut)),
    }
}

/// A slice or array type, which starts with the `[` at `pos`.
fn parse_array(tokens: &Vec<Token>, pos: usize) -> (r: Result<(ast::Type, usize), ParseError>)
    requires
        pos < tokens.len(),
        kind_at(view_tokens(tokens@), pos as nat) == Some(TokenDiscriminant::OpenBracket),
    ensures
        match p_type(view_tokens(tokens@), pos as nat) {
            Ok((v, p)) => r matches Ok((x, q)) && syn_type(x) == v && q == p && pos < q
                <= tokens.len(),
            Err(e) => r matches Err(x) && x == e,
        },
    decreases left(view_tokens(tokens@), pos as nat), 0nat,
{
    let (t, p) = match parse_type(tokens, pos + 1) {
        Ok(r) => r,
        Err(e) => {
            return Err(e);
        },
    };
    match kind_of(tokens, p) {
        Some(TokenDiscriminant::CloseBracket) => Ok((ast::Type::Slice(Box::new(t)), p + 1)),
        Some(TokenDiscriminant::Semicolon) => {
            let (n, q) = match parse_int(tokens, p + 1) {
                Ok(r) => r,
                Err(e) => {
                    return Err(e);
                },
            };
            if at(tokens, q, TokenDiscriminant::CloseBracket) {
                Ok((ast::Type::Arr(Box::new(t), n), q + 1))
            } else {
                Err(unexpected(tokens, q, Expected::CloseBracket))
            }
        },
        _ => Err(unexpected(tokens, p, Expected::ArrayEnd)),
    }
}

/// The rest of a tuple type after the members `acc`.
fn parse_tuple(tokens: &Vec<Token>, pos: usize, acc: Vec<ast::Type>) -> (r: Result<
    (Vec<ast::Type>, usize),
    ParseError,
>)
    ensures
        match p_tuple(view_tokens(tokens@), pos as nat, syn_types(acc@)) {
            Ok((v, p)) => r matches Ok((x, q)) && syn_types(x@) == v && q == p && pos < q
                <= tokens.len(),
            Err(e) => r matches Err(x) && x == e,
        },
    decreases left(view_tokens(tokens@), pos as nat), 2nat,
{
    match kind_of(tokens, pos) {
        None => Err(unexpected(tokens, pos, Expected::ClosePar)),
        Some(TokenDiscriminant::ClosePar) => Ok((acc, pos + 1)),
        Some(_) => match parse_type(tokens, pos) {
            Err(e) => Err(e),
            Ok((t, p)) => {
                let mut acc = acc;
                assert(syn_types(acc@.push(t)) =~= syn_types(acc@).push(syn_type(t)));
                acc.push(t);
                parse_tuple(tokens, p, acc)
            },
        },
    }
}

/// A type after `->`, if there is an arrow.
fn parse_returns(tokens: &Vec<Token>, pos: usize) -> (r: Result<
    (Option<ast::Type>, usize),
    ParseError,
>)
    requires
        pos <= tokens.len(),
    ensures
        match p_returns(view_tokens(tokens@), pos as nat) {
            Ok((v, p)) => r matches Ok((x, q)) && syn_opt_type(x) == v && q == p && pos <= q
                <= tokens.len(),
            Err(e) => r matches Err(x) && x == e,
        },
{
    if at(tokens, pos, TokenDiscriminant::SingleArrow) {
        match parse_type(tokens, pos + 1) {
            Ok((t, p)) => Ok((Some(t), p)),
            Err(e) => Err(e),
        }
    } else {
        Ok((None, pos))
    }
}

/// The operator that a token of the given kind is between two sums.
fn sum_operator(kind: Option<TokenDiscriminant>) -> (r: Option<Op>)
    ensures
        r == sum_op(kind),
{
    match kind {
        Some(TokenDiscriminant::Plus) => Some(Op::Add),
        Some(TokenDiscriminant::Hyphen) => Some(Op::Sub),
        _ => None,
    }
}

/// The operator that a token of the given kind is between two factors.
fn factor_operator(kind: Option<TokenDiscriminant>) -> (r: Option<Op>)
    ensures
        r == factor_op(kind),
{
    match kind {
        Some(TokenDiscriminant::Star) => Some(Op::Mul),
        Some(TokenDiscriminant::Slash) => Some(Op::Div),
        Some(TokenDiscriminant::Percent) => Some(Op::Rem),
        _ => None,
    }
}

/// An expression.
fn parse_expr(tokens: &Vec<Token>, pos: usize) -> (r: Result<(ast::Expression, usize), ParseError>)
    ensures
        match p_expr(view_tokens(tokens@), pos as nat) {
            Ok((v, p)) => r matches Ok((x, q)) && syn_expr(x) == v && q == p && pos < q
                <= tokens.len(),
            Err(e) => r matches Err(x) && x == e,
        },
    decreases left(view_tokens(tokens@), pos as nat), 5nat,
{
    if pos >= tokens.len() {
        return Err(unexpected(tokens, pos, Expected::Expression));
    }
    match parse_factor(tokens, pos) {
        Err(e) => Err(e),
        Ok((first, p)) => parse_sum_rest(tokens, p, first),
    }
}

/// The rest of a sum after the sum `acc`.
fn parse_sum_rest(tokens: &Vec<Token>, pos: usize, acc: ast::Expression) -> (r: Result<
    (ast::Expression, usize),
    ParseError,
>)
    requires
        pos <= tokens.len(),
    ensures
        match p_sum_rest(view_tokens(tokens@), pos as nat, syn_expr(acc)) {
            Ok((v, p)) => r matches Ok((x, q)) && syn_expr(x) == v && q == p && pos <= q
                <= tokens.len(),
            Err(e) => r matches Err(x) && x == e,
        },
    decreases left(view_tokens(tokens@), pos as nat), 6nat,
{
    match sum_operator(kind_of(tokens, pos)) {
        None => Ok((acc, pos)),
        Some(op) => match parse_factor(tokens, pos + 1) {
            Err(e) => Err(e),
            Ok((r, p)) => parse_sum_rest(
                tokens,
                p,
                ast::Expression::Op(op, Box::new(acc), Box::new(r)),
            ),
        },
    }
}

/// A factor.
fn parse_factor(tokens: &Vec<Token>, pos: usize) -> (r: Result<
    (ast::Expression, usize),
    ParseError,
>)
    ensures
        match p_factor(view_tokens(tokens@), pos as nat) {
            Ok((v, p)) => r matches Ok((x, q)) && syn_expr(x) == v && q == p && pos < q
                <= tokens.len(),
            Err(e) => r matches Err(x) && x == e,
        },
    decreases left(view_tokens(tokens@), pos as nat), 3nat,
{
    if pos >= tokens.len() {
        return Err(unexpected(tokens, pos, Expected::Expression));
    }
    match parse_call(tokens, pos) {
        Err(e) => Err(e),
        Ok((first, p)) => parse_factor_rest(tokens, p, first),
    }
}

/// The rest of a factor after the factor `acc`.
fn parse_factor_rest(tokens: &Vec<Token>, pos: usize, acc: ast::Expression) -> (r: Result<
    (ast::Expression, usize),
    ParseError,
>)
    requires
        pos <= tokens.len(),
    ensures
        match p_factor_rest(view_tokens(tokens@), pos as nat, syn_expr(acc)) {
            Ok((v, p)) => r matches Ok((x, q)) && syn_expr(x) == v && q == p && pos <= q
                <= tokens.len(),
            Err(e) => r matches Err(x) && x == e,
        },
    decreases left(view_tokens(tokens@), pos as nat), 4nat,
{
    match factor_operator(kind_of(tokens, pos)) {
        None => Ok((acc, pos)),
        Some(op) => match parse_call(tokens, pos + 1) {
            Err(e) => Err(e),
            Ok((r, p)) => parse_factor_rest(
                tokens,
                p,
                ast::Expression::Op(op, Box::new(acc), Box::new(r)),
            ),
        },
    }
}

/// A value with any number of argument lists after it.
fn parse_call(tokens: &Vec<Token>, pos: usize) -> (r: Result<(ast::Expression, usize), ParseError>)
    ensures
        match p_call(view_tokens(tokens@), pos as nat) {
            Ok((v, p)) => r matches Ok((x, q)) && syn_expr(x) == v && q == p && pos < q
                <= tokens.len(),
            Err(e) => r matches Err(x) && x == e,
        },
    decreases left(view_tokens(tokens@), pos as nat), 1nat,
{
    if pos >= tokens.len() {
        return Err(unexpected(tokens, pos, Expected::Expression));
    }
    match parse_value(tokens, pos) {
        Err(e) => Err(e),
        Ok((callee, p)) => parse_call_rest(tokens, p, callee),
    }
}

/// The rest of a call after the callee `acc`.
fn parse_call_rest(tokens: &Vec<Token>, pos: usize, acc: ast::Expression) -> (r: Result<
    (ast::Expression, usize),
    ParseError,
>)
    requires
        pos <= tokens.len(),
    ensures
        match p_call_rest(view_tokens(tokens@), pos as nat, syn_expr(acc)) {
            Ok((v, p)) => r matches Ok((x, q)) && syn_expr(x) == v && q == p && pos <= q
                <= tokens.len(),
            Err(e) => r matches Err(x) && x == e,
        },
    decreases left(view_tokens(tokens@), pos as nat), 2nat,
{
    if at(tokens, pos, TokenDiscriminant::OpenPar) {
        let none: Vec<ast::Expression> = Vec::new();
        assert(syn_exprs(none@) =~= Seq::empty());
        match parse_args(tokens, pos + 1, none) {
            Err(e) => Err(e),
            Ok((args, p)) => parse_call_rest(
                tokens,
                p,
                ast::Expression::Call(Box::new(acc), args),
            ),
        }
    } else {
        Ok((acc, pos))
    }
}

/// The rest of an argument list after the arguments `acc`.
fn parse_args(tokens: &Vec<Token>, pos: usize, acc: Vec<ast::Expression>) -> (r: Result<
    (Vec<ast::Expression>, usize),
    ParseError,
>)
    ensures
        match p_args(view_tokens(tokens@), pos as nat, syn_exprs(acc@)) {
            Ok((v, p)) => r matches Ok((x, q)) && syn_exprs(x@) == v && q == p && pos < q
                <= tokens.len(),
            Err(e) => r matches Err(x) && x == e,
        },
    decreases left(view_tokens(tokens@), pos as nat), 7nat,
{
    match kind_of(tokens, pos) {
        None => Err(unexpected(tokens, pos, Expected::ClosePar)),
        Some(TokenDiscriminant::ClosePar) => Ok((acc, pos + 1)),
        Some(_) => match parse_expr(tokens, pos) {
            Err(e) => Err(e),
            Ok((arg, p)) => {
                let mut acc = acc;
                assert(syn_exprs(acc@.push(arg)) =~= syn_exprs(acc@).push(syn_expr(arg)));
                match kind_of(tokens, p) {
                    Some(TokenDiscriminant::Comma) => {
                        acc.push(arg);
                        parse_args(tokens, p + 1, acc)
                    },
                    Some(TokenDiscriminant::ClosePar) => {
                        acc.push(arg);
                        Ok((acc, p + 1))
                    },
                    _ => Err(unexpected(tokens, p, Expected::ArgumentEnd)),
                }
            },
        },
    }
}

/// A value: an integer, a path, or a C string.
fn parse_value(tokens: &Vec<Token>, pos: usize) -> (r: Result<
    (ast::Expression, usize),
    ParseError,
>)
    ensures
        match p_value(view_tokens(tokens@), pos as nat) {
            Ok((v, p)) => r matches Ok((x, q)) && syn_expr(x) == v && q == p && pos < q
                <= tokens.len(),
            Err(e) => r matches Err(x) && x == e,
        },
{
    match kind_of(tokens, pos) {
        Some(TokenDiscriminant::Integer) => match parse_int(tokens, pos) {
            Ok((n, p)) => Ok((ast::Expression::Int(n), p)),
            Err(e) => Err(e),
        },
        Some(TokenDiscriminant::Identifier) => match parse_path(tokens, pos) {
            Ok((path, p)) => Ok((ast::Expression::LVar(path), p)),
            Err(e) => Err(e),
        },
        Some(TokenDiscriminant::CStaticString) => Ok(
            (ast::Expression::CStringRef(bytes_at(tokens, pos)), pos + 1),
        ),
        _ => Err(unexpected(tokens, pos, Expected::Expression)),
    }
}

/// The rest of a block after the statements `acc`.
fn parse_block_rest(tokens: &Vec<Token>, pos: usize, acc: Vec<ast::Statement>) -> (r: Result<
    (ast::Block, usize),
    ParseError,
>)
    ensures
        match p_block_rest(view_tokens(tokens@), pos as nat, syn_stmts(acc@)) {
            Ok((v, p)) => r matches Ok((x, q)) && syn_block(x) == v && q == p && pos < q
                <= tokens.len(),
            Err(e) => r matches Err(x) && x == e,
        },
    decreases left(view_tokens(tokens@), pos as nat), 8nat,
{
    match kind_of(tokens, pos) {
        None => Err(unexpected(tokens, pos, Expected::StatementEnd)),
        Some(TokenDiscriminant::CloseBrace) => Ok(
            (ast::Block { statements: acc, tail: None }, pos + 1),
        ),
        Some(TokenDiscriminant::Return) => parse_return(tokens, pos, acc),
        Some(_) => match parse_expr(tokens, pos) {
            Err(e) => Err(e),
            Ok((value, p)) => match kind_of(tokens, p) {
                Some(TokenDiscriminant::Semicolon) => {
                    let mut acc = acc;
                    let s = ast::Statement::Expression(value);
                    assert(syn_stmts(acc@.push(s)) =~= syn_stmts(acc@).push(ast::syn_stmt(s)));
                    acc.push(s);
                    parse_block_rest(tokens, p + 1, acc)
                },
                Some(TokenDiscriminant::CloseBrace) => Ok(
                    (ast::Block { statements: acc, tail: Some(value) }, p + 1),
                ),
                _ => Err(unexpected(tokens, p, Expected::StatementEnd)),
            },
        },
    }
}

/// The rest of a block that goes on with the `return` at `pos`, after the
/// statements `acc`.
fn parse_return(tokens: &Vec<Token>, pos: usize, acc: Vec<ast::Statement>) -> (r: Result<
    (ast::Block, usize),
    ParseError,
>)
    requires
        pos < tokens.len(),
    ensures
        match p_return(view_tokens(tokens@), pos as nat, syn_stmts(acc@)) {
            Ok((v, p)) => r matches Ok((x, q)) && syn_block(x) == v && q == p && pos < q
                <= tokens.len(),
            Err(e) => r matches Err(x) && x == e,
        },
    decreases left(view_tokens(tokens@), pos as nat), 0nat,
{
    let mut acc = acc;
    if at(tokens, pos + 1, TokenDiscriminant::Semicolon) {
        let s = ast::Statement::Return(None);
        assert(syn_stmts(acc@.push(s)) =~= syn_stmts(acc@).push(ast::syn_stmt(s)));
        acc.push(s);
        parse_block_rest(tokens, pos + 2, acc)
    } else {
        match parse_expr(tokens, pos + 1) {
            Err(e) => Err(e),
            Ok((value, p)) => {
                if at(tokens, p, TokenDiscriminant::Semicolon) {
                    let s = ast::Statement::Return(Some(value));
                    assert(syn_stmts(acc@.push(s)) =~= syn_stmts(acc@).push(ast::syn_stmt(s)));
                    acc.push(s);
                    parse_block_rest(tokens, p + 1, acc)
                } else {
                    Err(unexpected(tokens, p, Expected::Semicolon))
                }
            },
        }
    }
}

/// A block.
fn parse_block(tokens: &Vec<Token>, pos: usize) -> (r: Result<(ast::Block, usize), ParseError>)
    ensures
        match p_block(view_tokens(tokens@), pos as nat) {
            Ok((v, p)) => r matches Ok((x, q)) && syn_block(x) == v && q == p && pos < q
                <= tokens.len(),
            Err(e) => r matches Err(x) && x == e,
        },
{
    if at(tokens, pos, TokenDiscriminant::OpenBrace) {
        let none: Vec<ast::Statement> = Vec::new();
        assert(syn_stmts(none@) =~= Seq::empty());
        parse_block_rest(tokens, pos + 1, none)
    } else {
        Err(unexpected(tokens, pos, Expected::OpenBrace))
    }
}

/// Whether a token of the given kind can start a type.
fn can_start_type(kind: Option<TokenDiscriminant>) -> (r: bool)
    ensures
        r == starts_type(kind),
{
    match kind {
        Some(TokenDiscriminant::Identifier)
        | Some(TokenDiscriminant::Star)
        | Some(TokenDiscriminant::OpenBracket)
        | Some(TokenDiscriminant::OpenPar) => true,
        _ => false,
    }
}

/// The model of a parameter of a declared function.
pub open spec fn syn_extern_param(p: (Option<String>, ast::Type)) -> (
    Option<Seq<char>>,
    ast::TypeSyn,
) {
    (
        match p.0 {
            Some(name) => Some(name@),
            None => None,
        },
        syn_type(p.1),
    )
}

/// A parameter: a type, with a name before it or without.
fn parse_param(tokens: &Vec<Token>, pos: usize) -> (r: Result<
    ((Option<String>, ast::Type), usize),
    ParseError,
>)
    ensures
        match p_param(view_tokens(tokens@), pos as nat) {
            Ok((v, p)) => r matches Ok((x, q)) && syn_extern_param(x) == v && q == p && pos < q
                <= tokens.len(),
            Err(e) => r matches Err(x) && x == e,
        },
{
    if at(tokens, pos, TokenDiscriminant::Identifier) && can_start_type(kind_of(tokens, pos + 1)) {
        match parse_type(tokens, pos + 1) {
            Ok((t, p)) => Ok(((Some(text_at(tokens, pos)), t), p)),
            Err(e) => Err(e),
        }
    } else {
        match parse_type(tokens, pos) {
            Ok((t, p)) => Ok(((None, t), p)),
            Err(e) => Err(e),
        }
    }
}

/// The rest of a parameter list after the parameters `acc`.
fn parse_params(tokens: &Vec<Token>, pos: usize, acc: Vec<(Option<String>, ast::Type)>) -> (r:
    Result<(Vec<(Option<String>, ast::Type)>, usize), ParseError>)
    ensures
        match p_params(view_tokens(tokens@), pos as nat, syn_extern_params(acc@)) {
            Ok((v, p)) => r matches Ok((x, q)) && syn_extern_params(x@) == v && q == p && pos <= q
                <= tokens.len(),
            Err(e) => r matches Err(x) && x == e,
        },
    decreases left(view_tokens(tokens@), pos as nat),
{
    match kind_of(tokens, pos) {
        None => Err(unexpected(tokens, pos, Expected::ClosePar)),
        Some(TokenDiscriminant::ClosePar) | Some(TokenDiscriminant::TplDot) => Ok((acc, pos)),
        Some(_) => match parse_param(tokens, pos) {
            Err(e) => Err(e),
            Ok((param, p)) => {
                let mut acc = acc;
                assert(syn_extern_params(acc@.push(param)) =~= syn_extern_params(acc@).push(
                    syn_extern_param(param),
                ));
                acc.push(param);
                if at(tokens, p, TokenDiscriminant::Comma) {
                    parse_params(tokens, p + 1, acc)
                } else {
                    Ok((acc, p))
                }
            },
        },
    }
}

/// The declaration of a function, from the token after `extern` on.
fn parse_extern(tokens: &Vec<Token>, pos: usize) -> (r: Result<(ast::FnExtern, usize), ParseError>)
    requires
        pos <= tokens.len(),
    ensures
        match p_extern(view_tokens(tokens@), pos as nat) {
            Ok((v, p)) => r matches Ok((x, q)) && x@ == v && q == p && pos < q <= tokens.len(),
            Err(e) => r matches Err(x) && x == e,
        },
{
    if !at(tokens, pos, TokenDiscriminant::Fn) {
        return Err(unexpected(tokens, pos, Expected::Fn));
    }
    if !at(tokens, pos + 1, TokenDiscriminant::Identifier) {
        return Err(unexpected(tokens, pos + 1, Expected::Identifier));
    }
    if !at(tokens, pos + 2, TokenDiscriminant::OpenPar) {
        return Err(unexpected(tokens, pos + 2, Expected::OpenPar));
    }
    let none: Vec<(Option<String>, ast::Type)> = Vec::new();
    assert(syn_extern_params(none@) =~= Seq::empty());
    let (params, p) = match parse_params(tokens, pos + 3, none) {
        Ok(r) => r,
        Err(e) => {
            return Err(e);
        },
    };
    let varadic = at(tokens, p, TokenDiscriminant::TplDot);
    let close = if varadic {
        p + 1
    } else {
        p
    };
    if !at(tokens, close, TokenDiscriminant::ClosePar) {
        return Err(unexpected(tokens, close, Expected::ClosePar));
    }
    let (ret, q) = match parse_returns(tokens, close + 1) {
        Ok(r) => r,
        Err(e) => {
            return Err(e);
        },
    };
    if at(tokens, q, TokenDiscriminant::Semicolon) {
        Ok((ast::FnExtern { name: text_at(tokens, pos + 1), params, varadic, returns: ret }, q + 1))
    } else {
        Err(unexpected(tokens, q, Expected::Semicolon))
    }
}

/// The entry point, from the token after `entry` on.
fn parse_entry(tokens: &Vec<Token>, pos: usize) -> (r: Result<(ast::Entry, usize), ParseError>)
    requires
        pos <= tokens.len(),
    ensures
        match p_entry(view_tokens(tokens@), pos as nat) {
            Ok((v, p)) => r matches Ok((x, q)) && x@ == v && q == p && pos < q <= tokens.len(),
            Err(e) => r matches Err(x) && x == e,
        },
{
    let (ret, p) = match parse_returns(tokens, pos) {
        Ok(r) => r,
        Err(e) => {
            return Err(e);
        },
    };
    match parse_block(tokens, p) {
        Ok((body, q)) => Ok((ast::Entry { returns: ret, body }, q)),
        Err(e) => Err(e),
    }
}

/// A top-level declaration.
fn parse_decl(tokens: &Vec<Token>, pos: usize) -> (r: Result<
    (ast::TopLevelDecl, usize),
    ParseError,
>)
    ensures
        match p_decl(view_tokens(tokens@), pos as nat) {
            Ok((v, p)) => r matches Ok((x, q)) && x@ == v && q == p && pos < q <= tokens.len(),
            Err(e) => r matches Err(x) && x == e,
        },
{
    match kind_of(tokens, pos) {
        Some(TokenDiscriminant::Extern) => match parse_extern(tokens, pos + 1) {
            Ok((f, p)) => Ok((ast::TopLevelDecl::FnExtern(f), p)),
            Err(e) => Err(e),
        },
        Some(TokenDiscriminant::Entry) => match parse_entry(tokens, pos + 1) {
            Ok((f, p)) => Ok((ast::TopLevelDecl::Def(ast::TopLevelDef::Entry(f)), p)),
            Err(e) => Err(e),
        },
        _ => Err(unexpected(tokens, pos, Expected::Declaration)),
    }
}

/// The syntax tree of a file: the declarations that the tokens are the
/// text of, in order. The tokens are those of the whole file, without a
/// token for its end.
pub fn parse(tokens: &Vec<Token>) -> (r: Result<Vec<ast::TopLevelDecl>, ParseError>)
    ensures
        match parse_file(view_tokens(tokens@)) {
            Ok(v) => r matches Ok(x) && syn_file(x@) == v,
            Err(e) => r matches Err(x) && x == e,
        },
{
    let ghost ts = view_tokens(tokens@);
    let mut decls: Vec<ast::TopLevelDecl> = Vec::new();
    let mut pos: usize = 0;
    assert(syn_file(decls@) =~= Seq::empty());
    while pos < tokens.len()
        invariant
            pos <= tokens.len(),
            ts == view_tokens(tokens@),
            parse_file(ts) == p_file(ts, pos as nat, syn_file(decls@)),
        decreases tokens.len() - pos,
    {
        match parse_decl(tokens, pos) {
            Ok((d, p)) => {
                assert(syn_file(decls@.push(d)) =~= syn_file(decls@).push(d@));
                decls.push(d);
                pos = p;
            },
            Err(e) => {
                return Err(e);
            },
        }
    }
    Ok(decls)
}

/// The parser of files.
#[derive(Debug)]
pub struct LokFileParser {
    _priv: (),
}

impl LokFileParser {
    pub fn new() -> LokFileParser {
        LokFileParser { _priv: () }
    }

    /// The syntax tree of a file.
    pub fn parse(&self, tokens: &Vec<Token>) -> (r: Result<Vec<ast::TopLevelDecl>, ParseError>)
        ensures
            match parse_file(view_tokens(tokens@)) {
                Ok(v) => r matches Ok(x) && syn_file(x@) == v,
                Err(e) => r matches Err(x) && x == e,
            },
    {
        parse(tokens)
    }
}

/// What was looked for, in words.
pub open spec fn words(e: Expected) -> Seq<char> {
    match e {
        Expected::Declaration => "`extern` or `entry`"@,
        Expected::Type => "type"@,
        Expected::Expression => "expression"@,
        Expected::Identifier => "identifier"@,
        Expected::Integer => "integer"@,
        Expected::Fn => "`fn`"@,
        Expected::OpenPar => "`(`"@,
        Expected::ClosePar => "`)`"@,
        Expected::OpenBrace => "`{`"@,
        Expected::Semicolon => "`;`"@,
        Expected::ArrayEnd => "`]` or `;`"@,
        Expected::CloseBracket => "`]`"@,
        Expected::ConstOrMut => "`const` or `mut`"@,
        Expected::StatementEnd => "`;` or `}`"@,
        Expected::ArgumentEnd => "`,` or `)`"@,
    }
}

impl Expected {
    /// What was looked for, in words.
    pub fn description(self) -> (r: String)
        ensures
            r@ == words(self),
    {
        match self {
            Expected::Declaration => "`extern` or `entry`".to_owned(),
            Expected::Type => "type".to_owned(),
            Expected::Expression => "expression".to_owned(),
            Expected::Identifier => "identifier".to_owned(),
            Expected::Integer => "integer".to_owned(),
            Expected::Fn => "`fn`".to_owned(),
            Expected::OpenPar => "`(`".to_owned(),
            Expected::ClosePar => "`)`".to_owned(),
            Expected::OpenBrace => "`{`".to_owned(),
            Expected::Semicolon => "`;`".to_owned(),
            Expected::ArrayEnd => "`]` or `;`".to_owned(),
            Expected::CloseBracket => "`]`".to_owned(),
            Expected::ConstOrMut => "`const` or `mut`".to_owned(),
            Expected::StatementEnd => "`;` or `}`".to_owned(),
            Expected::ArgumentEnd => "`,` or `)`".to_owned(),
        }
    }
}

} // verus!
