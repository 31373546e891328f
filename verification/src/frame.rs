//! What lowering leaves as it was: scopes are closed as they were opened,
//! loops are left as they were entered, and what was declared or interned
//! stays where it is.

use vstd::prelude::*;
use crate::ast;
use crate::lir::ValueView;
use crate::error::LIRErrorType;
use crate::model::{
    LowerState, Lowered, lower_args, lower_block, lower_else, lower_expr, lower_if, lower_opt_expr,
    lower_stmt, lower_stmts,
};
use crate::types::TypeView;

verus! {

/// The second sequence starts with the first.
pub open spec fn extends<T>(a: Seq<T>, b: Seq<T>) -> bool {
    a.len() <= b.len() && forall|i: int| 0 <= i < a.len() ==> b[i] == a[i]
}

/// Whether what was recorded as declared between two states are locals.
pub open spec fn records_locals(st: LowerState, st1: LowerState) -> bool {
    forall|i: int| st.decls.len() <= i < st1.decls.len() ==> (#[trigger] st1.decls[i]).name is Local
}

/// What holds of the state before and after any step of lowering: the
/// function table is the same, as many scopes are open and all but the
/// innermost are the same, as many loops are entered, and the locals and
/// string constants recorded before are still there, at their indices.
/// Nothing but locals is recorded as declared.
pub open spec fn advances(st: LowerState, st1: LowerState) -> bool {
    &&& st1.names.fns == st.names.fns
    &&& st1.names.scopes.len() == st.names.scopes.len()
    &&& st1.names.scopes.drop_last() == st.names.scopes.drop_last()
    &&& st1.loops.len() == st.loops.len()
    &&& extends(st.decls, st1.decls)
    &&& extends(st.strings, st1.strings)
    &&& records_locals(st, st1)
}

/// What holds of the state before and after the lowering of an expression
/// or a block: in addition, every name resolves as before.
pub open spec fn balanced(st: LowerState, st1: LowerState) -> bool {
    advances(st, st1) && st1.names == st.names
}

/// Lowering an expression leaves the scopes as they were.
pub proof fn lemma_expr_balanced(e: ast::Expression, st: LowerState)
    ensures
        lower_expr(e, st) matches Ok((_, st1)) ==> balanced(st, st1),
        lower_expr(e, st) matches Err((_, st1)) ==> balanced(st, st1),
    decreases e, 0nat,
{
    match e {
        ast::Expression::Assign(lhs, op, rhs) => {
            lemma_expr_balanced(*rhs, st);
        },
        ast::Expression::Op(op, lhs, rhs) => {
            lemma_expr_balanced(*lhs, st);
            if let Ok((_, st1)) = lower_expr(*lhs, st) {
                lemma_expr_balanced(*rhs, st1);
            }
        },
        ast::Expression::Call(callee, args) => {
            if let ast::Expression::LVar(path) = *callee {
                if let Some(decl) = st.names.resolve_fn_path(path@) {
                    lemma_args_balanced(args@, args@.len(), decl.params, st);
                }
            }
        },
        ast::Expression::Int(_) => {},
        ast::Expression::Block(b) => {
            lemma_block_balanced(*b, st);
        },
        ast::Expression::If(i) => {
            lemma_if_balanced(i, st);
        },
        ast::Expression::Loop(b) => {
            lemma_block_balanced(*b, st.enter_loop());
            match lower_block(*b, st.enter_loop()) {
                Ok((_, st1)) => {
                    assert(st1.leave_loop().loops.len() == st.loops.len());
                },
                Err((_, st1)) => {
                    assert(st1.leave_loop().loops.len() == st.loops.len());
                },
            }
        },
        ast::Expression::CStringRef(_) => {},
        ast::Expression::LVar(_) => {},
    }
}

/// Lowering an optional expression leaves the scopes as they were.
pub proof fn lemma_opt_expr_balanced(e: Option<ast::Expression>, st: LowerState)
    ensures
        lower_opt_expr(e, st) matches Ok((_, st1)) ==> balanced(st, st1),
        lower_opt_expr(e, st) matches Err((_, st1)) ==> balanced(st, st1),
    decreases e, 0nat,
{
    if let Some(e) = e {
        lemma_expr_balanced(e, st);
    }
}

/// Lowering the arguments of a call leaves the scopes as they were.
pub proof fn lemma_args_balanced(
    args: Seq<ast::Expression>,
    n: nat,
    params: Seq<(Seq<char>, TypeView)>,
    st: LowerState,
)
    ensures
        lower_args(args, n, params, st) matches Ok((_, st1)) ==> balanced(st, st1),
        lower_args(args, n, params, st) matches Err((_, st1)) ==> balanced(st, st1),
    decreases args, n,
{
    if !(n == 0 || n > args.len()) {
        lemma_args_balanced(args, (n - 1) as nat, params, st);
        if let Ok((_, st1)) = lower_args(args, (n - 1) as nat, params, st) {
            lemma_expr_balanced(args[n - 1], st1);
        }
    }
}

/// A block closes the scope that it opens: after it every name resolves
/// as it did before it.
pub proof fn lemma_block_balanced(b: ast::Block, st: LowerState)
    ensures
        lower_block(b, st) matches Ok((_, st1)) ==> balanced(st, st1),
        lower_block(b, st) matches Err((_, st1)) ==> balanced(st, st1),
    decreases b, 0nat,
{
    let st0 = st.push_scope();
    lemma_stmts_advance(b.statements@, b.statements@.len(), st0);
    assert(st0.names.scopes.drop_last() =~= st.names.scopes);
    match lower_stmts(b.statements@, b.statements@.len(), st0) {
        Err((_, st1)) => {
            assert(st1.pop_scope().names.scopes =~= st.names.scopes);
        },
        Ok((_, st1)) => {
            lemma_opt_expr_balanced(b.tail, st1);
            match lower_opt_expr(b.tail, st1) {
                Ok((_, st2)) => {
                    assert(st2.pop_scope().names.scopes =~= st.names.scopes);
                },
                Err((_, st2)) => {
                    assert(st2.pop_scope().names.scopes =~= st.names.scopes);
                },
            }
        },
    }
}

/// Lowering statements changes no scope but the innermost.
pub proof fn lemma_stmts_advance(ss: Seq<ast::Statement>, n: nat, st: LowerState)
    ensures
        lower_stmts(ss, n, st) matches Ok((_, st1)) ==> advances(st, st1),
        lower_stmts(ss, n, st) matches Err((_, st1)) ==> advances(st, st1),
    decreases ss, n,
{
    if !(n == 0 || n > ss.len()) {
        lemma_stmts_advance(ss, (n - 1) as nat, st);
        if let Ok((_, st1)) = lower_stmts(ss, (n - 1) as nat, st) {
            lemma_stmt_advances(ss[n - 1], st1);
        }
    }
}

/// Lowering a statement changes no scope but the innermost.
pub proof fn lemma_stmt_advances(s: ast::Statement, st: LowerState)
    ensures
        lower_stmt(s, st) matches Ok((_, st1)) ==> advances(st, st1),
        lower_stmt(s, st) matches Err((_, st1)) ==> balanced(st, st1),
    decreases s, 0nat,
{
    match s {
        ast::Statement::Expression(e) => {
            lemma_expr_balanced(e, st);
        },
        ast::Statement::Break(e) => {
            lemma_opt_expr_balanced(e, st);
        },
        ast::Statement::Return(e) => {
            lemma_opt_expr_balanced(e, st);
        },
        ast::Statement::Decl { name, mutable, expected_type, value } => {
            lemma_expr_balanced(value, st);
            if let Ok((_, st1)) = lower_stmt(s, st) {
                let mid = (lower_expr(value, st)->Ok_0).1;
                if mid.names.scopes.len() > 0 {
                    assert(st1.names.scopes.drop_last() =~= mid.names.scopes.drop_last());
                }
            }
        },
    }
}

/// Lowering what follows an `else` leaves the scopes as they were.
pub proof fn lemma_else_balanced(e: Option<ast::Else>, st: LowerState)
    ensures
        lower_else(e, st) matches Ok((_, st1)) ==> balanced(st, st1),
        lower_else(e, st) matches Err((_, st1)) ==> balanced(st, st1),
    decreases e, 0nat,
{
    match e {
        None => {},
        Some(ast::Else::If(i)) => {
            lemma_if_balanced(*i, st);
        },
        Some(ast::Else::Block(b)) => {
            lemma_block_balanced(*b, st);
        },
    }
}

/// Lowering a conditional leaves the scopes as they were.
pub proof fn lemma_if_balanced(i: ast::If, st: LowerState)
    ensures
        lower_if(i, st) matches Ok((_, st1)) ==> balanced(st, st1),
        lower_if(i, st) matches Err((_, st1)) ==> balanced(st, st1),
    decreases i, 0nat,
{
    lemma_expr_balanced(*i.0, st);
    if let Ok((_, st1)) = lower_expr(*i.0, st) {
        lemma_block_balanced(*i.1, st1);
        if let Ok((_, st2)) = lower_block(*i.1, st1) {
            lemma_else_balanced(i.2, st2);
        }
    }
}

/// The state in which lowering ends: the one after what was lowered, or
/// the one in which the error was found.
pub open spec fn reached<T>(r: Lowered<T>) -> LowerState {
    match r {
        Ok((_, st)) => st,
        Err((_, st)) => st,
    }
}

/// What a block declares is visible in the block only. After the block
/// every name resolves as it did before: to the outer declaration, or to
/// nothing if there is none. As many loops are entered as before, too.
/// This is so whether the block is lowered or found in error: no scope and
/// no loop outlives the lowering of the block that made it.
pub proof fn law_block_scoping(b: ast::Block, st: LowerState, name: Seq<char>)
    ensures
        reached(lower_block(b, st)).names == st.names,
        reached(lower_block(b, st)).names.resolve_var(name) == st.names.resolve_var(name),
        reached(lower_block(b, st)).loops.len() == st.loops.len(),
        extends(st.decls, reached(lower_block(b, st)).decls),
        extends(st.strings, reached(lower_block(b, st)).strings),
{
    lemma_block_balanced(b, st);
}

/// A statement that is found in error changes nothing but what the part
/// of it that was lowered has recorded and interned: every name resolves
/// as before, and as many loops are entered. A declaration in error
/// declares nothing, and a `break` in error alters no loop: the state is
/// the one after the expression of the statement.
pub proof fn law_failed_statement_changes_nothing(s: ast::Statement, st: LowerState)
    ensures
        lower_stmt(s, st) matches Err((_, st1)) ==> balanced(st, st1),
        s matches ast::Statement::Decl { value, .. } ==> (lower_stmt(s, st) matches Err(
            (_, st1),
        ) ==> st1 == reached(lower_expr(value, st))),
        s matches ast::Statement::Break(e) ==> (lower_stmt(s, st) matches Err((_, st1)) ==> st1
            == reached(lower_opt_expr(e, st))),
{
    lemma_stmt_advances(s, st);
}

/// A string literal is lowered to the index at which its bytes stand in the
/// pool, with the flag for the terminating zero. Whatever is lowered
/// afterwards, the bytes and the flag stay at that index, and so does
/// every constant that was there before.
pub proof fn law_string_constant_is_kept(
    bytes: Vec<u8>,
    later: ast::Expression,
    st: LowerState,
)
    ensures
        lower_expr(ast::Expression::CStringRef(bytes), st) matches Ok((e, st1)) && e.value
            == ValueView::ConstStr(st.strings.len() as usize) && st1.strings.len()
            == st.strings.len() + 1 && st1.strings[st.strings.len() as int] == (bytes@, true) && (
        lower_expr(later, st1) matches Ok((_, st2)) ==> st.strings.len() < st2.strings.len()
            && st2.strings[st.strings.len() as int] == (bytes@, true) && extends(
            st.strings,
            st2.strings,
        )),
{
    let st1 = st.intern(bytes@);
    lemma_expr_balanced(later, st1);
}

} // verus!
