//! The grammar of the language, as a mathematical function from a sequence
//! of tokens to the syntax tree that it is the text of.
//!
//! ```text
//! File        = Declaration*
//! Declaration = "extern" "fn" ID "(" Params "..."? ")" ("->" Type)? ";"
//!             | "entry" ("->" Type)? Block
//! Params      = (Param ",")* Param?
//! Param       = ID? Type
//! Type        = Path | "*" "const" Type | "*" "mut" Type
//!             | "*" "dyn" "const" Type | "*" "dyn" "mut" Type
//!             | "[" Type "]" | "[" Type ";" INT "]" | "(" Type* ")"
//! Path        = (ID "::")* ID
//! Block       = "{" Statement* Expression? "}"
//! Statement   = Expression ";" | "return" Expression? ";"
//! Expression  = Sum
//! Sum         = Sum ("+" | "-") Factor | Factor
//! Factor      = Factor ("*" | "/" | "%") Call | Call
//! Call        = Call "(" Arguments ")" | Value
//! Arguments   = (Expression ",")* Expression?
//! Value       = INT | Path | CSTRING
//! ```

use vstd::prelude::*;
use crate::ast::{BlockSyn, EntrySyn, ExprSyn, FnExternSyn, StmtSyn, TopSyn, TypeSyn};
use crate::lexer::{TokenDiscriminant, TokenView};
use crate::types::Op;

verus! {

/// What the parser looked for where it found something else.
#[derive(Debug, Clone, Copy, PartialEq, Eq, Structural)]
pub enum Expected {
    /// `extern` or `entry`
    Declaration,
    Type,
    Expression,
    Identifier,
    Integer,
    /// `fn`
    Fn,
    /// `(`
    OpenPar,
    /// `)`
    ClosePar,
    /// `{`
    OpenBrace,
    /// `;`
    Semicolon,
    /// `]` or `;`
    ArrayEnd,
    /// `]`
    CloseBracket,
    /// `const` or `mut`
    ConstOrMut,
    /// `;` or `}`
    StatementEnd,
    /// `,` or `)`
    ArgumentEnd,
}

/// Why a sequence of tokens is not the text of a file.
#[derive(Debug, Clone, Copy, PartialEq, Eq, Structural)]
pub enum ParseError {
    /// The tokens end where more is needed.
    Eof { expected: Expected },
    /// The token with the given index is not what the grammar allows there.
    Unexpected { expected: Expected, found: usize },
    /// The token with the given index is an integer that is too big, or
    /// that is not written in decimal digits.
    BigInt { found: usize },
}

/// The result of parsing from a position: what was parsed and the position
/// after it, or the error.
pub type Parsed<T> = Result<(T, nat), ParseError>;

/// The kind of the token at a position, if there is one.
pub open spec fn kind_at(ts: Seq<TokenView>, pos: nat) -> Option<TokenDiscriminant> {
    if pos < ts.len() {
        Some(ts[pos as int].kind)
    } else {
        None
    }
}

/// Whether the token at a position is of the given kind.
pub open spec fn is_at(ts: Seq<TokenView>, pos: nat, kind: TokenDiscriminant) -> bool {
    kind_at(ts, pos) == Some(kind)
}

/// The error for what stands at a position where something else is needed.
pub open spec fn wrong(ts: Seq<TokenView>, pos: nat, expected: Expected) -> ParseError {
    if pos < ts.len() {
        ParseError::Unexpected { expected, found: pos as usize }
    } else {
        ParseError::Eof { expected }
    }
}

/// The number of tokens from a position on.
pub open spec fn left(ts: Seq<TokenView>, pos: nat) -> nat {
    if pos <= ts.len() {
        (ts.len() - pos) as nat
    } else {
        0
    }
}

/// The position `p` after something that was parsed from `pos`. What is
/// parsed is never empty, so `p` is always behind `pos`; this function says
/// so in a form that needs no proof.
pub open spec fn next(pos: nat, p: nat) -> nat {
    if p > pos {
        p
    } else {
        pos + 1
    }
}

/// The value of a decimal digit: of one of the characters `0` to `9`.
pub open spec fn digit(c: char) -> Option<int> {
    if 48 <= c as u32 && c as u32 <= 57 {
        Some(c as u32 as int - 48)
    } else {
        None
    }
}

/// The number that the first `n` characters denote in decimal, if they are
/// digits all.
pub open spec fn digits_value(s: Seq<char>, n: nat) -> Option<int>
    decreases n,
{
    if n == 0 || n > s.len() {
        Some(0)
    } else {
        match (digits_value(s, (n - 1) as nat), digit(s[n - 1])) {
            (Some(v), Some(d)) => Some(v * 10 + d),
            _ => None,
        }
    }
}

/// The number that a numeral denotes: one or more decimal digits, with a
/// `+` before them or without, that denote a number of 64 bits.
pub open spec fn numeral(s: Seq<char>) -> Option<u64> {
    let digits = if s.len() > 0 && s[0] == '+' {
        s.skip(1)
    } else {
        s
    };
    if digits.len() == 0 {
        None
    } else {
        match digits_value(digits, digits.len()) {
            Some(v) => if v <= u64::MAX {
                Some(v as u64)
            } else {
                None
            },
            None => None,
        }
    }
}

/// The integer at a position.
pub open spec fn p_int(ts: Seq<TokenView>, pos: nat) -> Parsed<u64> {
    if is_at(ts, pos, TokenDiscriminant::Integer) {
        match numeral(ts[pos as int].text) {
            Some(n) => Ok((n, pos + 1)),
            None => Err(ParseError::BigInt { found: pos as usize }),
        }
    } else {
        Err(wrong(ts, pos, Expected::Integer))
    }
}

/// The rest of a path after the segments `acc`: `::` and a name, any
/// number of times.
pub open spec fn p_path_rest(ts: Seq<TokenView>, pos: nat, acc: Seq<Seq<char>>) -> Parsed<
    Seq<Seq<char>>,
>
    decreases left(ts, pos),
{
    if is_at(ts, pos, TokenDiscriminant::DblColon) {
        if is_at(ts, pos + 1, TokenDiscriminant::Identifier) {
            p_path_rest(ts, pos + 2, acc.push(ts[pos as int + 1].text))
        } else {
            Err(wrong(ts, pos + 1, Expected::Identifier))
        }
    } else {
        Ok((acc, pos))
    }
}

/// A path: names with `::` between them.
pub open spec fn p_path(ts: Seq<TokenView>, pos: nat) -> Parsed<Seq<Seq<char>>> {
    if is_at(ts, pos, TokenDiscriminant::Identifier) {
        p_path_rest(ts, pos + 1, seq![ts[pos as int].text])
    } else {
        Err(wrong(ts, pos, Expected::Identifier))
    }
}

/// A type.
pub open spec fn p_type(ts: Seq<TokenView>, pos: nat) -> Parsed<TypeSyn>
    decreases left(ts, pos), 0nat,
{
    match kind_at(ts, pos) {
        Some(TokenDiscriminant::Identifier) => match p_path(ts, pos) {
            Ok((path, p)) => Ok((TypeSyn::Name(path), p)),
            Err(e) => Err(e),
        },
        Some(TokenDiscriminant::Star) => match kind_at(ts, pos + 1) {
            Some(TokenDiscriminant::Const) => match p_type(ts, pos + 2) {
                Ok((t, p)) => Ok((TypeSyn::PtrConst(Box::new(t)), p)),
                Err(e) => Err(e),
            },
            Some(TokenDiscriminant::Mut) => match p_type(ts, pos + 2) {
                Ok((t, p)) => Ok((TypeSyn::PtrMut(Box::new(t)), p)),
                Err(e) => Err(e),
            },
            Some(TokenDiscriminant::Dyn) => match kind_at(ts, pos + 2) {
                Some(TokenDiscriminant::Const) => match p_type(ts, pos + 3) {
                    Ok((t, p)) => Ok((TypeSyn::PtrDynConst(Box::new(t)), p)),
                    Err(e) => Err(e),
                },
                Some(TokenDiscriminant::Mut) => match p_type(ts, pos + 3) {
                    Ok((t, p)) => Ok((TypeSyn::PtrDynMut(Box::new(t)), p)),
                    Err(e) => Err(e),
                },
                _ => Err(wrong(ts, pos + 2, Expected::ConstOrMut)),
            },
            _ => Err(wrong(ts, pos + 1, Expected::ConstOrMut)),
        },
        Some(TokenDiscriminant::OpenBracket) => match p_type(ts, pos + 1) {
            Err(e) => Err(e),
            Ok((t, p)) => match kind_at(ts, p) {
                Some(TokenDiscriminant::CloseBracket) => Ok((TypeSyn::Slice(Box::new(t)), p + 1)),
                Some(TokenDiscriminant::Semicolon) => match p_int(ts, p + 1) {
                    Err(e) => Err(e),
                    Ok((n, q)) => if is_at(ts, q, TokenDiscriminant::CloseBracket) {
                        Ok((TypeSyn::Arr(Box::new(t), n), q + 1))
                    } else {
                        Err(wrong(ts, q, Expected::CloseBracket))
                    },
                },
                _ => Err(wrong(ts, p, Expected::ArrayEnd)),
            },
        },
        Some(TokenDiscriminant::OpenPar) => match p_tuple(ts, pos + 1, Seq::empty()) {
            Ok((members, p)) => Ok((TypeSyn::Tuple(members), p)),
            Err(e) => Err(e),
        },
        _ => Err(wrong(ts, pos, Expected::Type)),
    }
}

/// The rest of a tuple type after the members `acc`: types up to the
/// closing parenthesis.
pub open spec fn p_tuple(ts: Seq<TokenView>, pos: nat, acc: Seq<TypeSyn>) -> Parsed<Seq<TypeSyn>>
    decreases left(ts, pos), 1nat,
{
    match kind_at(ts, pos) {
        None => Err(wrong(ts, pos, Expected::ClosePar)),
        Some(TokenDiscriminant::ClosePar) => Ok((acc, pos + 1)),
        Some(_) => match p_type(ts, pos) {
            Err(e) => Err(e),
            Ok((t, p)) => p_tuple(ts, next(pos, p), acc.push(t)),
        },
    }
}

/// A type after `->`, if there is an arrow.
pub open spec fn p_returns(ts: Seq<TokenView>, pos: nat) -> Parsed<Option<TypeSyn>> {
    if is_at(ts, pos, TokenDiscriminant::SingleArrow) {
        match p_type(ts, pos + 1) {
            Ok((t, p)) => Ok((Some(t), p)),
            Err(e) => Err(e),
        }
    } else {
        Ok((None, pos))
    }
}

/// The operator that a token of the given kind is between two sums.
pub open spec fn sum_op(kind: Option<TokenDiscriminant>) -> Option<Op> {
    match kind {
        Some(TokenDiscriminant::Plus) => Some(Op::Add),
        Some(TokenDiscriminant::Hyphen) => Some(Op::Sub),
        _ => None,
    }
}

/// The operator that a token of the given kind is between two factors.
pub open spec fn factor_op(kind: Option<TokenDiscriminant>) -> Option<Op> {
    match kind {
        Some(TokenDiscriminant::Star) => Some(Op::Mul),
        Some(TokenDiscriminant::Slash) => Some(Op::Div),
        Some(TokenDiscriminant::Percent) => Some(Op::Rem),
        _ => None,
    }
}

/// An expression.
pub open spec fn p_expr(ts: Seq<TokenView>, pos: nat) -> Parsed<ExprSyn>
    decreases left(ts, pos), 5nat,
{
    if pos >= ts.len() {
        Err(wrong(ts, pos, Expected::Expression))
    } else {
        match p_factor(ts, pos) {
            Err(e) => Err(e),
            Ok((first, p)) => p_sum_rest(ts, next(pos, p), first),
        }
    }
}

/// The rest of a sum after the sum `acc`: an operator and a factor, any
/// number of times. The operators associate to the left.
pub open spec fn p_sum_rest(ts: Seq<TokenView>, pos: nat, acc: ExprSyn) -> Parsed<ExprSyn>
    decreases left(ts, pos), 6nat,
{
    match sum_op(kind_at(ts, pos)) {
        None => Ok((acc, pos)),
        Some(op) => match p_factor(ts, pos + 1) {
            Err(e) => Err(e),
            Ok((r, p)) => p_sum_rest(
                ts,
                next(pos, p),
                ExprSyn::Op(op, Box::new(acc), Box::new(r)),
            ),
        },
    }
}

/// A factor: calls with `*`, `/` or `%` between them.
pub open spec fn p_factor(ts: Seq<TokenView>, pos: nat) -> Parsed<ExprSyn>
    decreases left(ts, pos), 3nat,
{
    if pos >= ts.len() {
        Err(wrong(ts, pos, Expected::Expression))
    } else {
        match p_call(ts, pos) {
            Err(e) => Err(e),
            Ok((first, p)) => p_factor_rest(ts, next(pos, p), first),
        }
    }
}

/// The rest of a factor after the factor `acc`.
pub open spec fn p_factor_rest(ts: Seq<TokenView>, pos: nat, acc: ExprSyn) -> Parsed<ExprSyn>
    decreases left(ts, pos), 4nat,
{
    match factor_op(kind_at(ts, pos)) {
        None => Ok((acc, pos)),
        Some(op) => match p_call(ts, pos + 1) {
            Err(e) => Err(e),
            Ok((r, p)) => p_factor_rest(
                ts,
                next(pos, p),
                ExprSyn::Op(op, Box::new(acc), Box::new(r)),
            ),
        },
    }
}

/// A value with any number of argument lists after it.
pub open spec fn p_call(ts: Seq<TokenView>, pos: nat) -> Parsed<ExprSyn>
    decreases left(ts, pos), 1nat,
{
    if pos >= ts.len() {
        Err(wrong(ts, pos, Expected::Expression))
    } else {
        match p_value(ts, pos) {
            Err(e) => Err(e),
            Ok((callee, p)) => p_call_rest(ts, next(pos, p), callee),
        }
    }
}

/// The rest of a call after the callee `acc`: argument lists.
pub open spec fn p_call_rest(ts: Seq<TokenView>, pos: nat, acc: ExprSyn) -> Parsed<ExprSyn>
    decreases left(ts, pos), 2nat,
{
    if is_at(ts, pos, TokenDiscriminant::OpenPar) {
        match p_args(ts, pos + 1, Seq::empty()) {
            Err(e) => Err(e),
            Ok((args, p)) => p_call_rest(ts, next(pos, p), ExprSyn::Call(Box::new(acc), args)),
        }
    } else {
        Ok((acc, pos))
    }
}

/// The rest of an argument list after the arguments `acc`, up to the
/// closing parenthesis. A comma may follow the last argument.
pub open spec fn p_args(ts: Seq<TokenView>, pos: nat, acc: Seq<ExprSyn>) -> Parsed<Seq<ExprSyn>>
    decreases left(ts, pos), 7nat,
{
    match kind_at(ts, pos) {
        None => Err(wrong(ts, pos, Expected::ClosePar)),
        Some(TokenDiscriminant::ClosePar) => Ok((acc, pos + 1)),
        Some(_) => match p_expr(ts, pos) {
            Err(e) => Err(e),
            Ok((arg, p)) => match kind_at(ts, p) {
                Some(TokenDiscriminant::Comma) => p_args(ts, next(pos, p + 1), acc.push(arg)),
                Some(TokenDiscriminant::ClosePar) => Ok((acc.push(arg), p + 1)),
                _ => Err(wrong(ts, p, Expected::ArgumentEnd)),
            },
        },
    }
}

/// A value: an integer, a path, or a C string.
pub open spec fn p_value(ts: Seq<TokenView>, pos: nat) -> Parsed<ExprSyn> {
    match kind_at(ts, pos) {
        Some(TokenDiscriminant::Integer) => match p_int(ts, pos) {
            Ok((n, p)) => Ok((ExprSyn::Int(n), p)),
            Err(e) => Err(e),
        },
        Some(TokenDiscriminant::Identifier) => match p_path(ts, pos) {
            Ok((path, p)) => Ok((ExprSyn::LVar(path), p)),
            Err(e) => Err(e),
        },
        Some(TokenDiscriminant::CStaticString) => Ok(
            (ExprSyn::CStringRef(ts[pos as int].bytes), pos + 1),
        ),
        _ => Err(wrong(ts, pos, Expected::Expression)),
    }
}

/// The rest of a block after the statements `acc`, up to the closing
/// brace. An expression that the closing brace follows is the tail.
pub open spec fn p_block_rest(ts: Seq<TokenView>, pos: nat, acc: Seq<StmtSyn>) -> Parsed<BlockSyn>
    decreases left(ts, pos), 8nat,
{
    match kind_at(ts, pos) {
        None => Err(wrong(ts, pos, Expected::StatementEnd)),
        Some(TokenDiscriminant::CloseBrace) => Ok(
            (BlockSyn { statements: acc, tail: None }, pos + 1),
        ),
        Some(TokenDiscriminant::Return) => p_return(ts, pos, acc),
        Some(_) => match p_expr(ts, pos) {
            Err(e) => Err(e),
            Ok((value, p)) => match kind_at(ts, p) {
                Some(TokenDiscriminant::Semicolon) => p_block_rest(
                    ts,
                    next(pos, p + 1),
                    acc.push(StmtSyn::Expression(value)),
                ),
                Some(TokenDiscriminant::CloseBrace) => Ok(
                    (BlockSyn { statements: acc, tail: Some(value) }, p + 1),
                ),
                _ => Err(wrong(ts, p, Expected::StatementEnd)),
            },
        },
    }
}

/// The rest of a block that goes on with a `return` at `pos`, after the
/// statements `acc`: `return`, an expression or none, and a semicolon, and
/// then the rest of the block.
pub open spec fn p_return(ts: Seq<TokenView>, pos: nat, acc: Seq<StmtSyn>) -> Parsed<BlockSyn>
    decreases left(ts, pos), 0nat,
{
    if pos >= ts.len() {
        Err(wrong(ts, pos, Expected::StatementEnd))
    } else if is_at(ts, pos + 1, TokenDiscriminant::Semicolon) {
        p_block_rest(ts, pos + 2, acc.push(StmtSyn::Return(None)))
    } else {
        match p_expr(ts, pos + 1) {
            Err(e) => Err(e),
            Ok((value, p)) => if is_at(ts, p, TokenDiscriminant::Semicolon) {
                p_block_rest(ts, next(pos, p + 1), acc.push(StmtSyn::Return(Some(value))))
            } else {
                Err(wrong(ts, p, Expected::Semicolon))
            },
        }
    }
}

/// A block.
pub open spec fn p_block(ts: Seq<TokenView>, pos: nat) -> Parsed<BlockSyn> {
    if is_at(ts, pos, TokenDiscriminant::OpenBrace) {
        p_block_rest(ts, pos + 1, Seq::empty())
    } else {
        Err(wrong(ts, pos, Expected::OpenBrace))
    }
}

/// Whether a token of the given kind can start a type.
pub open spec fn starts_type(kind: Option<TokenDiscriminant>) -> bool {
    kind == Some(TokenDiscriminant::Identifier) || kind == Some(TokenDiscriminant::Star) || kind
        == Some(TokenDiscriminant::OpenBracket) || kind == Some(TokenDiscriminant::OpenPar)
}

/// A parameter: a type, with a name before it or without. A name that a
/// type follows is the name of the parameter.
pub open spec fn p_param(ts: Seq<TokenView>, pos: nat) -> Parsed<(Option<Seq<char>>, TypeSyn)> {
    if is_at(ts, pos, TokenDiscriminant::Identifier) && starts_type(kind_at(ts, pos + 1)) {
        match p_type(ts, pos + 1) {
            Ok((t, p)) => Ok(((Some(ts[pos as int].text), t), p)),
            Err(e) => Err(e),
        }
    } else {
        match p_type(ts, pos) {
            Ok((t, p)) => Ok(((None, t), p)),
            Err(e) => Err(e),
        }
    }
}

/// The rest of a parameter list after the parameters `acc`, up to `...` or
/// the closing parenthesis, which is left where it is. A comma may follow
/// the last parameter.
pub open spec fn p_params(
    ts: Seq<TokenView>,
    pos: nat,
    acc: Seq<(Option<Seq<char>>, TypeSyn)>,
) -> Parsed<Seq<(Option<Seq<char>>, TypeSyn)>>
    decreases left(ts, pos),
{
    match kind_at(ts, pos) {
        None => Err(wrong(ts, pos, Expected::ClosePar)),
        Some(TokenDiscriminant::ClosePar) | Some(TokenDiscriminant::TplDot) => Ok((acc, pos)),
        Some(_) => match p_param(ts, pos) {
            Err(e) => Err(e),
            Ok((param, p)) => if is_at(ts, p, TokenDiscriminant::Comma) {
                p_params(ts, next(pos, p + 1), acc.push(param))
            } else {
                Ok((acc.push(param), p))
            },
        },
    }
}

/// The declaration of a function, from the token after `extern` on.
pub open spec fn p_extern(ts: Seq<TokenView>, pos: nat) -> Parsed<FnExternSyn> {
    if !is_at(ts, pos, TokenDiscriminant::Fn) {
        Err(wrong(ts, pos, Expected::Fn))
    } else if !is_at(ts, pos + 1, TokenDiscriminant::Identifier) {
        Err(wrong(ts, pos + 1, Expected::Identifier))
    } else if !is_at(ts, pos + 2, TokenDiscriminant::OpenPar) {
        Err(wrong(ts, pos + 2, Expected::OpenPar))
    } else {
        match p_params(ts, pos + 3, Seq::empty()) {
            Err(e) => Err(e),
            Ok((params, p)) => {
                let varadic = is_at(ts, p, TokenDiscriminant::TplDot);
                let close = if varadic {
                    p + 1
                } else {
                    p
                };
                if !is_at(ts, close, TokenDiscriminant::ClosePar) {
                    Err(wrong(ts, close, Expected::ClosePar))
                } else {
                    match p_returns(ts, close + 1) {
                        Err(e) => Err(e),
                        Ok((ret, q)) => if is_at(ts, q, TokenDiscriminant::Semicolon) {
                            Ok(
                                (
                                    FnExternSyn {
                                        name: ts[pos as int + 1].text,
                                        params,
                                        varadic,
                                        returns: ret,
                                    },
                                    q + 1,
                                ),
                            )
                        } else {
                            Err(wrong(ts, q, Expected::Semicolon))
                        },
                    }
                }
            },
        }
    }
}

/// The entry point, from the token after `entry` on.
pub open spec fn p_entry(ts: Seq<TokenView>, pos: nat) -> Parsed<EntrySyn> {
    match p_returns(ts, pos) {
        Err(e) => Err(e),
        Ok((ret, p)) => match p_block(ts, p) {
            Err(e) => Err(e),
            Ok((body, q)) => Ok((EntrySyn { returns: ret, body }, q)),
        },
    }
}

/// A top-level declaration.
pub open spec fn p_decl(ts: Seq<TokenView>, pos: nat) -> Parsed<TopSyn> {
    match kind_at(ts, pos) {
        Some(TokenDiscriminant::Extern) => match p_extern(ts, pos + 1) {
            Ok((f, p)) => Ok((TopSyn::FnExtern(f), p)),
            Err(e) => Err(e),
        },
        Some(TokenDiscriminant::Entry) => match p_entry(ts, pos + 1) {
            Ok((f, p)) => Ok((TopSyn::Entry(f), p)),
            Err(e) => Err(e),
        },
        _ => Err(wrong(ts, pos, Expected::Declaration)),
    }
}

/// The rest of a file after the declarations `acc`: declarations up to the
/// end of the tokens.
pub open spec fn p_file(ts: Seq<TokenView>, pos: nat, acc: Seq<TopSyn>) -> Result<
    Seq<TopSyn>,
    ParseError,
>
    decreases left(ts, pos),
{
    if pos >= ts.len() {
        Ok(acc)
    } else {
        match p_decl(ts, pos) {
            Err(e) => Err(e),
            Ok((d, p)) => p_file(ts, next(pos, p), acc.push(d)),
        }
    }
}

/// The syntax tree of a file: the declarations that the tokens are the
/// text of, in order.
pub open spec fn parse_file(ts: Seq<TokenView>) -> Result<Seq<TopSyn>, ParseError> {
    p_file(ts, 0, Seq::empty())
}

/// Whether a result of parsing from `pos` ends behind `pos` and within
/// the tokens.
pub open spec fn advances<T>(ts: Seq<TokenView>, pos: nat, r: Parsed<T>) -> bool {
    r matches Ok((_, p)) ==> pos < p <= ts.len()
}

/// Whether a result of parsing from `pos` ends at `pos` or behind it, and
/// within the tokens.
pub open spec fn holds<T>(ts: Seq<TokenView>, pos: nat, r: Parsed<T>) -> bool {
    r matches Ok((_, p)) ==> pos <= p <= ts.len()
}

/// The rest of a path ends within the tokens.
pub proof fn lemma_path_rest_holds(ts: Seq<TokenView>, pos: nat, acc: Seq<Seq<char>>)
    requires
        pos <= ts.len(),
    ensures
        holds(ts, pos, p_path_rest(ts, pos, acc)),
    decreases left(ts, pos),
{
    if is_at(ts, pos, TokenDiscriminant::DblColon) && is_at(
        ts,
        pos + 1,
        TokenDiscriminant::Identifier,
    ) {
        lemma_path_rest_holds(ts, pos + 2, acc.push(ts[pos as int + 1].text));
    }
}

/// A type is never empty.
pub proof fn lemma_type_advances(ts: Seq<TokenView>, pos: nat)
    ensures
        advances(ts, pos, p_type(ts, pos)),
    decreases left(ts, pos), 0nat,
{
    match kind_at(ts, pos) {
        Some(TokenDiscriminant::Identifier) => {
            lemma_path_rest_holds(ts, pos + 1, seq![ts[pos as int].text]);
        },
        Some(TokenDiscriminant::Star) => {
            lemma_type_advances(ts, pos + 2);
            lemma_type_advances(ts, pos + 3);
        },
        Some(TokenDiscriminant::OpenBracket) => {
            lemma_type_advances(ts, pos + 1);
        },
        Some(TokenDiscriminant::OpenPar) => {
            lemma_tuple_advances(ts, pos + 1, Seq::empty());
        },
        _ => {},
    }
}

/// The rest of a tuple type is never empty: it ends with a parenthesis.
pub proof fn lemma_tuple_advances(ts: Seq<TokenView>, pos: nat, acc: Seq<TypeSyn>)
    ensures
        advances(ts, pos, p_tuple(ts, pos, acc)),
    decreases left(ts, pos), 1nat,
{
    match kind_at(ts, pos) {
        None => {},
        Some(TokenDiscriminant::ClosePar) => {},
        Some(_) => {
            lemma_type_advances(ts, pos);
            if let Ok((t, p)) = p_type(ts, pos) {
                lemma_tuple_advances(ts, next(pos, p), acc.push(t));
            }
        },
    }
}

/// An expression is never empty.
pub proof fn lemma_expr_advances(ts: Seq<TokenView>, pos: nat)
    ensures
        advances(ts, pos, p_expr(ts, pos)),
    decreases left(ts, pos), 5nat,
{
    if pos < ts.len() {
        lemma_factor_advances(ts, pos);
        if let Ok((first, p)) = p_factor(ts, pos) {
            lemma_sum_rest_holds(ts, p, first);
        }
    }
}

/// The rest of a sum ends within the tokens.
pub proof fn lemma_sum_rest_holds(ts: Seq<TokenView>, pos: nat, acc: ExprSyn)
    requires
        pos <= ts.len(),
    ensures
        holds(ts, pos, p_sum_rest(ts, pos, acc)),
    decreases left(ts, pos), 6nat,
{
    if let Some(op) = sum_op(kind_at(ts, pos)) {
        lemma_factor_advances(ts, pos + 1);
        if let Ok((r, p)) = p_factor(ts, pos + 1) {
            lemma_sum_rest_holds(ts, next(pos, p), ExprSyn::Op(op, Box::new(acc), Box::new(r)));
        }
    }
}

/// A factor is never empty.
pub proof fn lemma_factor_advances(ts: Seq<TokenView>, pos: nat)
    ensures
        advances(ts, pos, p_factor(ts, pos)),
    decreases left(ts, pos), 3nat,
{
    if pos < ts.len() {
        lemma_call_advances(ts, pos);
        if let Ok((first, p)) = p_call(ts, pos) {
            lemma_factor_rest_holds(ts, p, first);
        }
    }
}

/// The rest of a factor ends within the tokens.
pub proof fn lemma_factor_rest_holds(ts: Seq<TokenView>, pos: nat, acc: ExprSyn)
    requires
        pos <= ts.len(),
    ensures
        holds(ts, pos, p_factor_rest(ts, pos, acc)),
    decreases left(ts, pos), 4nat,
{
    if let Some(op) = factor_op(kind_at(ts, pos)) {
        lemma_call_advances(ts, pos + 1);
        if let Ok((r, p)) = p_call(ts, pos + 1) {
            lemma_factor_rest_holds(
                ts,
                next(pos, p),
                ExprSyn::Op(op, Box::new(acc), Box::new(r)),
            );
        }
    }
}

/// A call is never empty.
pub proof fn lemma_call_advances(ts: Seq<TokenView>, pos: nat)
    ensures
        advances(ts, pos, p_call(ts, pos)),
    decreases left(ts, pos), 1nat,
{
    if pos < ts.len() {
        lemma_value_advances(ts, pos);
        if let Ok((callee, p)) = p_value(ts, pos) {
            lemma_call_rest_holds(ts, p, callee);
        }
    }
}

/// The rest of a call ends within the tokens.
pub proof fn lemma_call_rest_holds(ts: Seq<TokenView>, pos: nat, acc: ExprSyn)
    requires
        pos <= ts.len(),
    ensures
        holds(ts, pos, p_call_rest(ts, pos, acc)),
    decreases left(ts, pos), 2nat,
{
    if is_at(ts, pos, TokenDiscriminant::OpenPar) {
        lemma_args_advance(ts, pos + 1, Seq::empty());
        if let Ok((args, p)) = p_args(ts, pos + 1, Seq::empty()) {
            lemma_call_rest_holds(ts, next(pos, p), ExprSyn::Call(Box::new(acc), args));
        }
    }
}

/// The rest of an argument list is never empty: it ends with a
/// parenthesis.
pub proof fn lemma_args_advance(ts: Seq<TokenView>, pos: nat, acc: Seq<ExprSyn>)
    ensures
        advances(ts, pos, p_args(ts, pos, acc)),
    decreases left(ts, pos), 7nat,
{
    match kind_at(ts, pos) {
        None => {},
        Some(TokenDiscriminant::ClosePar) => {},
        Some(_) => {
            lemma_expr_advances(ts, pos);
            if let Ok((arg, p)) = p_expr(ts, pos) {
                if is_at(ts, p, TokenDiscriminant::Comma) {
                    lemma_args_advance(ts, next(pos, p + 1), acc.push(arg));
                }
            }
        },
    }
}

/// A value is never empty.
pub proof fn lemma_value_advances(ts: Seq<TokenView>, pos: nat)
    ensures
        advances(ts, pos, p_value(ts, pos)),
{
    if is_at(ts, pos, TokenDiscriminant::Identifier) {
        lemma_path_rest_holds(ts, pos + 1, seq![ts[pos as int].text]);
    }
}

/// The rest of a block is never empty: it ends with a brace.
pub proof fn lemma_block_rest_advances(ts: Seq<TokenView>, pos: nat, acc: Seq<StmtSyn>)
    ensures
        advances(ts, pos, p_block_rest(ts, pos, acc)),
    decreases left(ts, pos), 8nat,
{
    match kind_at(ts, pos) {
        None => {},
        Some(TokenDiscriminant::CloseBrace) => {},
        Some(TokenDiscriminant::Return) => {
            lemma_return_advances(ts, pos, acc);
        },
        Some(_) => {
            lemma_expr_advances(ts, pos);
            if let Ok((value, p)) = p_expr(ts, pos) {
                if is_at(ts, p, TokenDiscriminant::Semicolon) {
                    lemma_block_rest_advances(
                        ts,
                        next(pos, p + 1),
                        acc.push(StmtSyn::Expression(value)),
                    );
                }
            }
        },
    }
}

/// The rest of a block that goes on with a `return` is never empty.
pub proof fn lemma_return_advances(ts: Seq<TokenView>, pos: nat, acc: Seq<StmtSyn>)
    ensures
        advances(ts, pos, p_return(ts, pos, acc)),
    decreases left(ts, pos), 0nat,
{
    if pos < ts.len() {
        if is_at(ts, pos + 1, TokenDiscriminant::Semicolon) {
            lemma_block_rest_advances(ts, pos + 2, acc.push(StmtSyn::Return(None)));
        } else {
            lemma_expr_advances(ts, pos + 1);
            if let Ok((value, p)) = p_expr(ts, pos + 1) {
                if is_at(ts, p, TokenDiscriminant::Semicolon) {
                    lemma_block_rest_advances(
                        ts,
                        next(pos, p + 1),
                        acc.push(StmtSyn::Return(Some(value))),
                    );
                }
            }
        }
    }
}

/// The rest of a parameter list ends within the tokens.
pub proof fn lemma_params_hold(
    ts: Seq<TokenView>,
    pos: nat,
    acc: Seq<(Option<Seq<char>>, TypeSyn)>,
)
    ensures
        holds(ts, pos, p_params(ts, pos, acc)),
    decreases left(ts, pos),
{
    match kind_at(ts, pos) {
        None => {},
        Some(TokenDiscriminant::ClosePar) | Some(TokenDiscriminant::TplDot) => {},
        Some(_) => {
            lemma_type_advances(ts, pos);
            lemma_type_advances(ts, pos + 1);
            if let Ok((param, p)) = p_param(ts, pos) {
                if is_at(ts, p, TokenDiscriminant::Comma) {
                    lemma_params_hold(ts, next(pos, p + 1), acc.push(param));
                }
            }
        },
    }
}

/// Whatever the parser takes for a type, an expression, a block or a
/// declaration is at least one token long and ends within the tokens: the
/// parser never stands still, and never reads beyond the end.
pub proof fn law_parsing_advances(ts: Seq<TokenView>, pos: nat)
    ensures
        advances(ts, pos, p_type(ts, pos)),
        advances(ts, pos, p_expr(ts, pos)),
        advances(ts, pos, p_block(ts, pos)),
        advances(ts, pos, p_decl(ts, pos)),
{
    lemma_type_advances(ts, pos);
    lemma_expr_advances(ts, pos);
    lemma_block_rest_advances(ts, pos + 1, Seq::empty());
    if is_at(ts, pos, TokenDiscriminant::Extern) {
        if is_at(ts, pos + 3, TokenDiscriminant::OpenPar) {
            lemma_params_hold(ts, pos + 4, Seq::empty());
            if let Ok((_, p)) = p_params(ts, pos + 4, Seq::empty()) {
                lemma_type_advances(ts, p + 2);
                lemma_type_advances(ts, p + 3);
            }
        }
    } else if is_at(ts, pos, TokenDiscriminant::Entry) {
        lemma_type_advances(ts, pos + 2);
        if let Ok((_, p)) = p_returns(ts, pos + 1) {
            lemma_block_rest_advances(ts, p + 1, Seq::empty());
        }
    }
}

} // verus!
