//! What lowering guarantees to linearization. A lowered body uses only
//! locals that it declares or that are parameters, only string constants
//! that are in the pool, and `break` only in a loop; and what yields a
//! value in it has a type, so that no conditional without an else-branch
//! yields one. So linearization never finds a lowered body inconsistent in
//! one of these ways.
//!
//! The other inconsistencies are not ruled out by lowering. An expression
//! that has a type may still yield no value, where control leaves by a
//! `return` or a `break` before its tail; a statement may follow a `return`;
//! and the operands of an operator are not checked for a value.

use vstd::prelude::*;
use crate::ast;
use crate::cfg::{LinearizeError, SlotView};
use crate::closed::{
    lemma_at, lemma_enter_loop, lemma_lin_args, lemma_lin_block, lemma_lin_expr,
    lemma_lin_opt_expr, lemma_lin_stmts, lemma_new_block, placed, sound,
};
use crate::frame::{
    advances, lemma_args_balanced, lemma_block_balanced, lemma_else_balanced,
    lemma_expr_balanced, lemma_opt_expr_balanced, lemma_stmt_advances, lemma_stmts_advance,
};
use crate::linear::{
    LinState, carries_value, decl_slots, initial, lin_args, lin_assign, lin_block,
    lin_block_expr, lin_call, lin_expr, lin_fn_body, lin_if, lin_loop, lin_opt_expr, lin_params,
    lin_stmt, lin_stmts, param_slots, place_slot, slot_named,
};
use crate::lir::{
    BlockView, DeclView, ExprView, IfView, LExprView, LValueView, StmtView, ValueView,
};
use crate::model::{
    LowerState, else_type, lower_args, lower_block, lower_else, lower_expr, lower_if,
    lower_lexpr, lower_opt_expr, lower_stmt, lower_stmts, tail_type,
};
use crate::scope::{NamesView, resolve_in};
use crate::types::{IdentView, TypeView};

verus! {

/// Whether a place is a local whose name is known.
pub open spec fn place_known(p: LExprView, known: Set<Seq<char>>) -> bool {
    p.value matches LValueView::Var(IdentView::Local(n)) && known.contains(n)
}

/// Whether an expression uses only locals whose names are known and only
/// string constants with an index below `consts`, and has every `break`
/// in a loop, where `depth` loops are around the expression.
pub open spec fn expr_known(e: ExprView, known: Set<Seq<char>>, depth: nat, consts: nat) -> bool
    decreases e, 0nat,
{
    match e.value {
        ValueView::ConstInt(_) => true,
        ValueView::ConstStr(i) => i < consts,
        ValueView::LExpr(p) => place_known(p, known),
        ValueView::Assign(_, p, r) => place_known(p, known) && expr_known(
            *r,
            known,
            depth,
            consts,
        ),
        ValueView::Op(_, l, r) => expr_known(*l, known, depth, consts) && expr_known(
            *r,
            known,
            depth,
            consts,
        ),
        ValueView::CallConcrete(_, args) => exprs_known(args, known, depth, consts),
        ValueView::Block(b) => block_known(*b, known, depth, consts),
        ValueView::If(i) => if_known(i, known, depth, consts),
        ValueView::Loop(b) => block_known(*b, known, depth + 1, consts),
    }
}

/// [`expr_known`] of an optional expression.
pub open spec fn opt_expr_known(
    e: Option<ExprView>,
    known: Set<Seq<char>>,
    depth: nat,
    consts: nat,
) -> bool
    decreases e, 1nat,
{
    match e {
        Some(e) => expr_known(e, known, depth, consts),
        None => true,
    }
}

/// [`expr_known`] of every expression of a sequence.
pub open spec fn exprs_known(
    es: Seq<ExprView>,
    known: Set<Seq<char>>,
    depth: nat,
    consts: nat,
) -> bool
    decreases es, 0nat,
{
    forall|i: int| 0 <= i < es.len() ==> expr_known(#[trigger] es[i], known, depth, consts)
}

/// [`expr_known`] of a conditional.
pub open spec fn if_known(i: IfView, known: Set<Seq<char>>, depth: nat, consts: nat) -> bool
    decreases i, 0nat,
{
    &&& expr_known(*i.cond, known, depth, consts)
    &&& block_known(*i.then_block, known, depth, consts)
    &&& match i.else_block {
        Some(b) => block_known(*b, known, depth, consts),
        None => true,
    }
}

/// [`expr_known`] of a block.
pub open spec fn block_known(b: BlockView, known: Set<Seq<char>>, depth: nat, consts: nat) -> bool
    decreases b, 0nat,
{
    &&& stmts_known(b.statements, known, depth, consts)
    &&& opt_expr_known(b.tail, known, depth, consts)
}

/// [`expr_known`] of every statement of a sequence.
pub open spec fn stmts_known(
    ss: Seq<StmtView>,
    known: Set<Seq<char>>,
    depth: nat,
    consts: nat,
) -> bool
    decreases ss, 0nat,
{
    forall|i: int| 0 <= i < ss.len() ==> stmt_known(#[trigger] ss[i], known, depth, consts)
}

/// [`expr_known`] of a statement. A declaration declares a known name,
/// and a `break` stands in a loop.
pub open spec fn stmt_known(s: StmtView, known: Set<Seq<char>>, depth: nat, consts: nat) -> bool
    decreases s, 0nat,
{
    match s {
        StmtView::Decl(name, e) => known.contains(name) && expr_known(e, known, depth, consts),
        StmtView::Eval(e) => expr_known(e, known, depth, consts),
        StmtView::Return(e) => opt_expr_known(e, known, depth, consts),
        StmtView::Break(e) => depth > 0 && opt_expr_known(e, known, depth, consts),
    }
}

/// Whether every declaration in scope is a local of the name that it is
/// declared under, and that name is known.
pub open spec fn scopes_known(names: NamesView, known: Set<Seq<char>>) -> bool {
    forall|k: int, n: Seq<char>|
        0 <= k < names.scopes.len() && #[trigger] names.scopes[k].contains_key(n)
            ==> names.scopes[k][n].name == IdentView::Local(n) && known.contains(n)
}

/// Whether a declaration is that of a local with a known name.
pub open spec fn decl_known(d: DeclView, known: Set<Seq<char>>) -> bool {
    d.name matches IdentView::Local(n) && known.contains(n)
}

/// Whether every local that was recorded between two states is a local
/// with a known name.
pub open spec fn new_decls_known(st: LowerState, st1: LowerState, known: Set<Seq<char>>) -> bool {
    forall|i: int|
        st.decls.len() <= i < st1.decls.len() ==> decl_known(#[trigger] st1.decls[i], known)
}

/// What is assumed of the state after a step of lowering: what the step
/// declares is known, and the pool does not grow beyond `consts`.
pub open spec fn within(st: LowerState, st1: LowerState, known: Set<Seq<char>>, consts: nat)
    -> bool {
    new_decls_known(st, st1, known) && st1.strings.len() <= consts
}

/// A name resolves to a local of that name, and the name is known.
pub proof fn lemma_resolve_known(
    scopes: Seq<Map<Seq<char>, DeclView>>,
    name: Seq<char>,
    known: Set<Seq<char>>,
)
    requires
        forall|k: int, n: Seq<char>|
            0 <= k < scopes.len() && #[trigger] scopes[k].contains_key(n) ==> scopes[k][n].name
                == IdentView::Local(n) && known.contains(n),
    ensures
        resolve_in(scopes, name) matches Some(d) ==> d.name == IdentView::Local(name)
            && known.contains(name),
    decreases scopes.len(),
{
    if scopes.len() > 0 {
        if scopes.last().contains_key(name) {
            assert(scopes[scopes.len() - 1].contains_key(name));
        } else {
            let rest = scopes.drop_last();
            assert forall|k: int, n: Seq<char>|
                0 <= k < rest.len() && #[trigger] rest[k].contains_key(n) implies rest[k][n].name
                == IdentView::Local(n) && known.contains(n) by {
                assert(rest[k] == scopes[k]);
            }
            lemma_resolve_known(rest, name, known);
        }
    }
}

/// A lowered place is a local with a known name.
pub proof fn lemma_lexpr_known(e: ast::Expression, names: NamesView, known: Set<Seq<char>>)
    requires
        scopes_known(names, known),
    ensures
        lower_lexpr(e, names) matches Ok(p) ==> place_known(p, known),
{
    if let ast::Expression::LVar(path) = e {
        if path@.len() == 1 {
            lemma_resolve_known(names.scopes, path@[0]@, known);
        }
    }
}

/// What a step declares is what its parts declare.
pub proof fn lemma_within_split(
    st: LowerState,
    st1: LowerState,
    st2: LowerState,
    known: Set<Seq<char>>,
    consts: nat,
)
    requires
        advances(st, st1),
        advances(st1, st2),
        within(st, st2, known, consts),
    ensures
        within(st, st1, known, consts),
        within(st1, st2, known, consts),
{
    assert forall|i: int| st.decls.len() <= i < st1.decls.len() implies decl_known(
        #[trigger] st1.decls[i],
        known,
    ) by {
        assert(st2.decls[i] == st1.decls[i]);
    }
}

/// Coercion changes the type of an expression only, so what is known of
/// the expression stays known.
pub proof fn lemma_coerce_known(
    e: ExprView,
    target: TypeView,
    known: Set<Seq<char>>,
    depth: nat,
    consts: nat,
)
    requires
        expr_known(e, known, depth, consts),
    ensures
        crate::model::coerce(e, target) matches Some(c) ==> expr_known(c, known, depth, consts),
{
}

/// A lowered expression uses only what is known.
pub proof fn lemma_expr_known(
    e: ast::Expression,
    st: LowerState,
    known: Set<Seq<char>>,
    consts: nat,
)
    requires
        scopes_known(st.names, known),
    ensures
        lower_expr(e, st) matches Ok((v, st1)) ==> (within(st, st1, known, consts) ==> expr_known(
            v,
            known,
            st.loops.len(),
            consts,
        )),
    decreases e, 0nat,
{
    lemma_expr_balanced(e, st);
    if let Ok((v, st_end)) = lower_expr(e, st) {
        if within(st, st_end, known, consts) {
            match e {
                ast::Expression::Assign(lhs, op, rhs) => {
                    lemma_lexpr_known(*lhs, st.names, known);
                    lemma_expr_known(*rhs, st, known, consts);
                    let target = lower_lexpr(*lhs, st.names).unwrap();
                    let value = (lower_expr(*rhs, st)->Ok_0).0;
                    lemma_coerce_known(value, target.ty, known, st.loops.len(), consts);
                },
                ast::Expression::Op(op, lhs, rhs) => {
                    lemma_expr_balanced(*lhs, st);
                    let (l, st1) = (lower_expr(*lhs, st)->Ok_0);
                    lemma_expr_balanced(*rhs, st1);
                    lemma_within_split(st, st1, st_end, known, consts);
                    lemma_expr_known(*lhs, st, known, consts);
                    lemma_expr_known(*rhs, st1, known, consts);
                },
                ast::Expression::Call(callee, args) => {
                    if let ast::Expression::LVar(path) = *callee {
                        let decl = st.names.resolve_fn_path(path@).unwrap();
                        lemma_args_known(args@, args@.len(), decl.params, st, known, consts);
                    }
                },
                ast::Expression::Int(_) => {},
                ast::Expression::Block(b) => {
                    lemma_block_known(*b, st, known, consts);
                },
                ast::Expression::If(i) => {
                    lemma_if_known(i, st, known, consts);
                },
                ast::Expression::Loop(b) => {
                    let st0 = st.enter_loop();
                    lemma_block_balanced(*b, st0);
                    lemma_block_known(*b, st0, known, consts);
                },
                ast::Expression::CStringRef(_) => {},
                ast::Expression::LVar(_) => {
                    lemma_lexpr_known(e, st.names, known);
                },
            }
        }
    }
}

/// A lowered optional expression uses only what is known.
pub proof fn lemma_opt_expr_known(
    e: Option<ast::Expression>,
    st: LowerState,
    known: Set<Seq<char>>,
    consts: nat,
)
    requires
        scopes_known(st.names, known),
    ensures
        lower_opt_expr(e, st) matches Ok((v, st1)) ==> (within(st, st1, known, consts)
            ==> opt_expr_known(v, known, st.loops.len(), consts)),
    decreases e, 0nat,
{
    if let Some(e) = e {
        lemma_expr_known(e, st, known, consts);
    }
}

/// The lowered arguments of a call use only what is known.
pub proof fn lemma_args_known(
    args: Seq<ast::Expression>,
    n: nat,
    params: Seq<(Seq<char>, TypeView)>,
    st: LowerState,
    known: Set<Seq<char>>,
    consts: nat,
)
    requires
        scopes_known(st.names, known),
    ensures
        lower_args(args, n, params, st) matches Ok((vs, st1)) ==> (within(
            st,
            st1,
            known,
            consts,
        ) ==> exprs_known(vs, known, st.loops.len(), consts)),
    decreases args, n,
{
    if !(n == 0 || n > args.len()) {
        if let Ok((vs, st_end)) = lower_args(args, n, params, st) {
            if within(st, st_end, known, consts) {
                lemma_args_balanced(args, (n - 1) as nat, params, st);
                let (done, st1) = (lower_args(args, (n - 1) as nat, params, st)->Ok_0);
                lemma_expr_balanced(args[n - 1], st1);
                let (value, st2) = (lower_expr(args[n - 1], st1)->Ok_0);
                lemma_within_split(st, st1, st_end, known, consts);
                lemma_args_known(args, (n - 1) as nat, params, st, known, consts);
                lemma_expr_known(args[n - 1], st1, known, consts);
                if n - 1 < params.len() {
                    lemma_coerce_known(value, params[n - 1].1, known, st.loops.len(), consts);
                }
                assert forall|i: int| 0 <= i < vs.len() implies expr_known(
                    #[trigger] vs[i],
                    known,
                    st.loops.len(),
                    consts,
                ) by {
                    if i < done.len() {
                        assert(vs[i] == done[i]);
                    }
                }
            }
        }
    }
}

/// A lowered block uses only what is known.
pub proof fn lemma_block_known(
    b: ast::Block,
    st: LowerState,
    known: Set<Seq<char>>,
    consts: nat,
)
    requires
        scopes_known(st.names, known),
    ensures
        lower_block(b, st) matches Ok((v, st1)) ==> (within(st, st1, known, consts)
            ==> block_known(v, known, st.loops.len(), consts)),
    decreases b, 0nat,
{
    if let Ok((v, st_end)) = lower_block(b, st) {
        if within(st, st_end, known, consts) {
            let st0 = st.push_scope();
            assert(scopes_known(st0.names, known)) by {
                assert forall|k: int, n: Seq<char>|
                    0 <= k < st0.names.scopes.len() && #[trigger] st0.names.scopes[k].contains_key(
                        n,
                    ) implies st0.names.scopes[k][n].name == IdentView::Local(n) && known.contains(
                    n,
                ) by {
                    if k < st.names.scopes.len() {
                        assert(st0.names.scopes[k] == st.names.scopes[k]);
                    }
                }
            }
            lemma_stmts_advance(b.statements@, b.statements@.len(), st0);
            let (stmts, st1) = (lower_stmts(b.statements@, b.statements@.len(), st0)->Ok_0);
            lemma_opt_expr_balanced(b.tail, st1);
            let (tail, st2) = (lower_opt_expr(b.tail, st1)->Ok_0);
            assert(st_end == st2.pop_scope());
            assert(st_end.decls == st2.decls && st_end.strings == st2.strings);
            assert(within(st0, st2, known, consts));
            lemma_within_split(st0, st1, st2, known, consts);
            lemma_stmts_known(b.statements@, b.statements@.len(), st0, known, consts);
            lemma_opt_expr_known(b.tail, st1, known, consts);
        }
    }
}

/// Lowered statements use only what is known, and what they declare is
/// known, too.
pub proof fn lemma_stmts_known(
    ss: Seq<ast::Statement>,
    n: nat,
    st: LowerState,
    known: Set<Seq<char>>,
    consts: nat,
)
    requires
        scopes_known(st.names, known),
    ensures
        lower_stmts(ss, n, st) matches Ok((vs, st1)) ==> (within(st, st1, known, consts)
            ==> stmts_known(vs, known, st.loops.len(), consts) && scopes_known(st1.names, known)),
    decreases ss, n,
{
    if !(n == 0 || n > ss.len()) {
        if let Ok((vs, st_end)) = lower_stmts(ss, n, st) {
            if within(st, st_end, known, consts) {
                lemma_stmts_advance(ss, (n - 1) as nat, st);
                let (done, st1) = (lower_stmts(ss, (n - 1) as nat, st)->Ok_0);
                lemma_stmt_advances(ss[n - 1], st1);
                lemma_within_split(st, st1, st_end, known, consts);
                lemma_stmts_known(ss, (n - 1) as nat, st, known, consts);
                lemma_stmt_known(ss[n - 1], st1, known, consts);
                assert forall|i: int| 0 <= i < vs.len() implies stmt_known(
                    #[trigger] vs[i],
                    known,
                    st.loops.len(),
                    consts,
                ) by {
                    if i < done.len() {
                        assert(vs[i] == done[i]);
                    }
                }
            }
        }
    }
}

/// A lowered statement uses only what is known, and what it declares is
/// known, too.
pub proof fn lemma_stmt_known(
    s: ast::Statement,
    st: LowerState,
    known: Set<Seq<char>>,
    consts: nat,
)
    requires
        scopes_known(st.names, known),
    ensures
        lower_stmt(s, st) matches Ok((v, st1)) ==> (within(st, st1, known, consts) ==> stmt_known(
            v,
            known,
            st.loops.len(),
            consts,
        ) && scopes_known(st1.names, known)),
    decreases s, 0nat,
{
    if let Ok((v, st_end)) = lower_stmt(s, st) {
        if within(st, st_end, known, consts) {
            match s {
                ast::Statement::Expression(e) => {
                    lemma_expr_balanced(e, st);
                    lemma_expr_known(e, st, known, consts);
                },
                ast::Statement::Break(e) => {
                    lemma_opt_expr_balanced(e, st);
                    lemma_opt_expr_known(e, st, known, consts);
                },
                ast::Statement::Return(e) => {
                    lemma_opt_expr_balanced(e, st);
                    lemma_opt_expr_known(e, st, known, consts);
                },
                ast::Statement::Decl { name, mutable, expected_type, value } => {
                    lemma_expr_balanced(value, st);
                    let (raw, st1) = (lower_expr(value, st)->Ok_0);
                    let d = st_end.decls[st1.decls.len() as int];
                    assert(st_end.decls == st1.decls.push(d));
                    assert(decl_known(d, known));
                    assert(within(st, st1, known, consts)) by {
                        assert forall|i: int|
                            st.decls.len() <= i < st1.decls.len() implies decl_known(
                            #[trigger] st1.decls[i],
                            known,
                        ) by {
                            assert(st_end.decls[i] == st1.decls[i]);
                        }
                    }
                    lemma_expr_known(value, st, known, consts);
                    if let Some(t) = expected_type {
                        lemma_coerce_known(
                            raw,
                            crate::model::lower_type(t).unwrap(),
                            known,
                            st.loops.len(),
                            consts,
                        );
                    }
                    assert forall|k: int, n: Seq<char>|
                        0 <= k < st_end.names.scopes.len()
                            && #[trigger] st_end.names.scopes[k].contains_key(
                            n,
                        ) implies st_end.names.scopes[k][n].name == IdentView::Local(n)
                        && known.contains(n) by {
                        if st1.names.scopes.len() > 0 {
                            if k < st1.names.scopes.len() - 1 {
                                assert(st_end.names.scopes[k] == st1.names.scopes[k]);
                            } else if n != name@ {
                                assert(st1.names.scopes[k].contains_key(n));
                            }
                        }
                    }
                },
            }
        }
    }
}

/// What follows an `else`, once lowered, uses only what is known.
pub proof fn lemma_else_known(
    e: Option<ast::Else>,
    st: LowerState,
    known: Set<Seq<char>>,
    consts: nat,
)
    requires
        scopes_known(st.names, known),
    ensures
        lower_else(e, st) matches Ok((v, st1)) ==> (within(st, st1, known, consts) ==> (
        v matches Some(b) ==> block_known(*b, known, st.loops.len(), consts))),
    decreases e, 0nat,
{
    match e {
        None => {},
        Some(ast::Else::If(i)) => {
            lemma_if_known(*i, st, known, consts);
            if let Ok((v, st1)) = lower_else(e, st) {
                let b = *v.unwrap();
                assert(b.statements.len() == 0);
            }
        },
        Some(ast::Else::Block(b)) => {
            lemma_block_known(*b, st, known, consts);
        },
    }
}

/// A lowered conditional uses only what is known.
pub proof fn lemma_if_known(i: ast::If, st: LowerState, known: Set<Seq<char>>, consts: nat)
    requires
        scopes_known(st.names, known),
    ensures
        lower_if(i, st) matches Ok((v, st1)) ==> (within(st, st1, known, consts) ==> if_known(
            v,
            known,
            st.loops.len(),
            consts,
        )),
    decreases i, 0nat,
{
    if let Ok((v, st_end)) = lower_if(i, st) {
        if within(st, st_end, known, consts) {
            lemma_expr_balanced(*i.0, st);
            let (cond, st1) = (lower_expr(*i.0, st)->Ok_0);
            lemma_block_balanced(*i.1, st1);
            let (then_block, st2) = (lower_block(*i.1, st1)->Ok_0);
            lemma_else_balanced(i.2, st2);
            let (else_block, st3) = (lower_else(i.2, st2)->Ok_0);
            assert(advances(st, st2));
            lemma_within_split(st, st2, st3, known, consts);
            lemma_within_split(st, st1, st2, known, consts);
            lemma_expr_known(*i.0, st, known, consts);
            lemma_coerce_known(
                cond,
                TypeView::Primitive(crate::types::Primitive::Bool),
                known,
                st.loops.len(),
                consts,
            );
            lemma_block_known(*i.1, st1, known, consts);
            lemma_else_known(i.2, st2, known, consts);
        }
    }
}

/// Whether an expression is typed as lowering types it, as far as it
/// matters for what yields a value: literals, variables, operators and
/// assignments have a type; a block or a conditional whose tail has a type
/// has one; and the then-branch of a conditional without an else-branch has
/// no type.
pub open spec fn expr_typed(e: ExprView) -> bool
    decreases e, 0nat,
{
    match e.value {
        ValueView::ConstInt(_) => e.ty.is_some(),
        ValueView::ConstStr(_) => e.ty.is_some(),
        ValueView::LExpr(_) => e.ty.is_some(),
        ValueView::Assign(_, _, r) => e.ty.is_some() && expr_typed(*r),
        ValueView::Op(_, l, r) => e.ty.is_some() && expr_typed(*l) && expr_typed(*r),
        ValueView::CallConcrete(_, args) => exprs_typed(args),
        ValueView::Block(b) => (tail_type(*b).is_some() ==> e.ty.is_some()) && block_typed(*b),
        ValueView::If(i) => (tail_type(*i.then_block).is_some() ==> e.ty.is_some()) && if_typed(i),
        ValueView::Loop(b) => block_typed(*b),
    }
}

/// [`expr_typed`] of an optional expression.
pub open spec fn opt_expr_typed(e: Option<ExprView>) -> bool
    decreases e, 1nat,
{
    match e {
        Some(e) => expr_typed(e),
        None => true,
    }
}

/// [`expr_typed`] of every expression of a sequence.
pub open spec fn exprs_typed(es: Seq<ExprView>) -> bool
    decreases es, 0nat,
{
    forall|i: int| 0 <= i < es.len() ==> expr_typed(#[trigger] es[i])
}

/// [`expr_typed`] of a conditional: its branches have the same type.
pub open spec fn if_typed(i: IfView) -> bool
    decreases i, 0nat,
{
    &&& expr_typed(*i.cond)
    &&& block_typed(*i.then_block)
    &&& tail_type(*i.then_block) == else_type(i.else_block)
    &&& match i.else_block {
        Some(b) => block_typed(*b),
        None => true,
    }
}

/// [`expr_typed`] of a block.
pub open spec fn block_typed(b: BlockView) -> bool
    decreases b, 0nat,
{
    &&& stmts_typed(b.statements)
    &&& opt_expr_typed(b.tail)
}

/// [`expr_typed`] of every statement of a sequence.
pub open spec fn stmts_typed(ss: Seq<StmtView>) -> bool
    decreases ss, 0nat,
{
    forall|i: int| 0 <= i < ss.len() ==> stmt_typed(#[trigger] ss[i])
}

/// [`expr_typed`] of a statement.
pub open spec fn stmt_typed(s: StmtView) -> bool
    decreases s, 0nat,
{
    match s {
        StmtView::Decl(_, e) => expr_typed(e),
        StmtView::Eval(e) => expr_typed(e),
        StmtView::Return(e) => opt_expr_typed(e),
        StmtView::Break(e) => opt_expr_typed(e),
    }
}

/// Coercion keeps an expression typed.
pub proof fn lemma_coerce_typed(e: ExprView, target: TypeView)
    requires
        expr_typed(e),
    ensures
        crate::model::coerce(e, target) matches Some(c) ==> expr_typed(c),
{
}

/// A lowered expression is typed.
pub proof fn lemma_expr_typed(e: ast::Expression, st: LowerState)
    ensures
        lower_expr(e, st) matches Ok((v, _)) ==> expr_typed(v),
    decreases e, 0nat,
{
    if let Ok((v, _)) = lower_expr(e, st) {
        match e {
            ast::Expression::Assign(lhs, op, rhs) => {
                lemma_expr_typed(*rhs, st);
                let target = lower_lexpr(*lhs, st.names).unwrap();
                lemma_coerce_typed((lower_expr(*rhs, st)->Ok_0).0, target.ty);
            },
            ast::Expression::Op(op, lhs, rhs) => {
                lemma_expr_typed(*lhs, st);
                lemma_expr_typed(*rhs, (lower_expr(*lhs, st)->Ok_0).1);
            },
            ast::Expression::Call(callee, args) => {
                if let ast::Expression::LVar(path) = *callee {
                    let decl = st.names.resolve_fn_path(path@).unwrap();
                    lemma_args_typed(args@, args@.len(), decl.params, st);
                }
            },
            ast::Expression::Int(_) => {},
            ast::Expression::Block(b) => {
                lemma_block_typed(*b, st);
            },
            ast::Expression::If(i) => {
                lemma_if_typed(i, st);
            },
            ast::Expression::Loop(b) => {
                lemma_block_typed(*b, st.enter_loop());
            },
            ast::Expression::CStringRef(_) => {},
            ast::Expression::LVar(_) => {},
        }
    }
}

/// A lowered optional expression is typed.
pub proof fn lemma_opt_expr_typed(e: Option<ast::Expression>, st: LowerState)
    ensures
        lower_opt_expr(e, st) matches Ok((v, _)) ==> opt_expr_typed(v),
    decreases e, 0nat,
{
    if let Some(e) = e {
        lemma_expr_typed(e, st);
    }
}

/// The lowered arguments of a call are typed.
pub proof fn lemma_args_typed(
    args: Seq<ast::Expression>,
    n: nat,
    params: Seq<(Seq<char>, TypeView)>,
    st: LowerState,
)
    ensures
        lower_args(args, n, params, st) matches Ok((vs, _)) ==> exprs_typed(vs),
    decreases args, n,
{
    if !(n == 0 || n > args.len()) {
        if let Ok((vs, _)) = lower_args(args, n, params, st) {
            lemma_args_typed(args, (n - 1) as nat, params, st);
            let (done, st1) = (lower_args(args, (n - 1) as nat, params, st)->Ok_0);
            lemma_expr_typed(args[n - 1], st1);
            let value = (lower_expr(args[n - 1], st1)->Ok_0).0;
            if n - 1 < params.len() {
                lemma_coerce_typed(value, params[n - 1].1);
            }
            assert forall|i: int| 0 <= i < vs.len() implies expr_typed(#[trigger] vs[i]) by {
                if i < done.len() {
                    assert(vs[i] == done[i]);
                }
            }
        }
    }
}

/// A lowered block is typed.
pub proof fn lemma_block_typed(b: ast::Block, st: LowerState)
    ensures
        lower_block(b, st) matches Ok((v, _)) ==> block_typed(v),
    decreases b, 0nat,
{
    if let Ok((v, _)) = lower_block(b, st) {
        let st0 = st.push_scope();
        lemma_stmts_typed(b.statements@, b.statements@.len(), st0);
        let st1 = (lower_stmts(b.statements@, b.statements@.len(), st0)->Ok_0).1;
        lemma_opt_expr_typed(b.tail, st1);
    }
}

/// Lowered statements are typed.
pub proof fn lemma_stmts_typed(ss: Seq<ast::Statement>, n: nat, st: LowerState)
    ensures
        lower_stmts(ss, n, st) matches Ok((vs, _)) ==> stmts_typed(vs),
    decreases ss, n,
{
    if !(n == 0 || n > ss.len()) {
        if let Ok((vs, _)) = lower_stmts(ss, n, st) {
            lemma_stmts_typed(ss, (n - 1) as nat, st);
            let (done, st1) = (lower_stmts(ss, (n - 1) as nat, st)->Ok_0);
            lemma_stmt_typed(ss[n - 1], st1);
            assert forall|i: int| 0 <= i < vs.len() implies stmt_typed(#[trigger] vs[i]) by {
                if i < done.len() {
                    assert(vs[i] == done[i]);
                }
            }
        }
    }
}

/// A lowered statement is typed.
pub proof fn lemma_stmt_typed(s: ast::Statement, st: LowerState)
    ensures
        lower_stmt(s, st) matches Ok((v, _)) ==> stmt_typed(v),
    decreases s, 0nat,
{
    if let Ok((v, _)) = lower_stmt(s, st) {
        match s {
            ast::Statement::Expression(e) => {
                lemma_expr_typed(e, st);
            },
            ast::Statement::Break(e) => {
                lemma_opt_expr_typed(e, st);
            },
            ast::Statement::Return(e) => {
                lemma_opt_expr_typed(e, st);
            },
            ast::Statement::Decl { name, mutable, expected_type, value } => {
                lemma_expr_typed(value, st);
                if let Some(t) = expected_type {
                    lemma_coerce_typed(
                        (lower_expr(value, st)->Ok_0).0,
                        crate::model::lower_type(t).unwrap(),
                    );
                }
            },
        }
    }
}

/// What follows an `else`, once lowered, is typed.
pub proof fn lemma_else_typed(e: Option<ast::Else>, st: LowerState)
    ensures
        lower_else(e, st) matches Ok((v, _)) ==> (v matches Some(b) ==> block_typed(*b)),
    decreases e, 0nat,
{
    match e {
        None => {},
        Some(ast::Else::If(i)) => {
            lemma_if_typed(*i, st);
            if let Ok((v, _)) = lower_else(e, st) {
                let b = *v.unwrap();
                assert(b.statements.len() == 0);
            }
        },
        Some(ast::Else::Block(b)) => {
            lemma_block_typed(*b, st);
        },
    }
}

/// A lowered conditional is typed.
pub proof fn lemma_if_typed(i: ast::If, st: LowerState)
    ensures
        lower_if(i, st) matches Ok((v, _)) ==> if_typed(v),
    decreases i, 0nat,
{
    if let Ok((v, _)) = lower_if(i, st) {
        lemma_expr_typed(*i.0, st);
        let (cond, st1) = (lower_expr(*i.0, st)->Ok_0);
        lemma_coerce_typed(cond, TypeView::Primitive(crate::types::Primitive::Bool));
        lemma_block_typed(*i.1, st1);
        let st2 = (lower_block(*i.1, st1)->Ok_0).1;
        lemma_else_typed(i.2, st2);
    }
}

/// Whether a value is yielded only where there is a type.
pub open spec fn typed_if_valued(r: crate::linear::Lin<Option<usize>>, ty: Option<TypeView>)
    -> bool {
    r matches Ok((Some(_), _)) ==> ty.is_some()
}

/// Whether no conditional without an else-branch was found to yield a
/// value.
pub open spec fn no_single_value<T>(r: crate::linear::Lin<T>) -> bool {
    r matches Err((k, _)) ==> !(k is ValueInSingleBranchIf)
}

/// A typed expression yields a value only if it has a type, and no
/// conditional without an else-branch in it yields one.
pub proof fn lemma_lin_expr_typed(e: ExprView, s: LinState)
    requires
        sound(s),
        placed(s),
        expr_typed(e),
    ensures
        typed_if_valued(lin_expr(e, s), e.ty),
        no_single_value(lin_expr(e, s)),
    decreases e, 0nat,
{
    match e.value {
        ValueView::ConstInt(_) => {},
        ValueView::ConstStr(_) => {},
        ValueView::LExpr(_) => {},
        ValueView::Assign(op, place, value) => {
            lemma_lin_assign_typed(op, place, *value, s);
        },
        ValueView::Op(op, l, r) => {
            lemma_lin_expr_typed(*l, s);
            lemma_lin_expr(*l, s);
            if let Ok((_, s1)) = lin_expr(*l, s) {
                lemma_lin_expr_typed(*r, s1);
            }
        },
        ValueView::CallConcrete(callee, args) => {
            lemma_lin_call_typed(callee, args, e.ty.is_some(), s);
        },
        ValueView::Block(b) => {
            lemma_lin_block_expr_typed(*b, s);
        },
        ValueView::If(i) => {
            lemma_lin_if_typed(i, s);
        },
        ValueView::Loop(b) => {
            lemma_lin_loop_typed(e.ty, *b, s);
        },
    }
}

/// [`lemma_lin_expr_typed`] for an optional expression.
pub proof fn lemma_lin_opt_expr_typed(e: Option<ExprView>, s: LinState)
    requires
        sound(s),
        placed(s),
        opt_expr_typed(e),
    ensures
        typed_if_valued(lin_opt_expr(e, s), crate::model::opt_expr_type(e)),
        no_single_value(lin_opt_expr(e, s)),
    decreases e, 1nat,
{
    if let Some(e) = e {
        lemma_lin_expr_typed(e, s);
    }
}

/// [`lemma_lin_expr_typed`] for an assignment.
pub proof fn lemma_lin_assign_typed(
    op: Option<crate::types::Op>,
    place: LExprView,
    value: ExprView,
    s: LinState,
)
    requires
        sound(s),
        placed(s),
        expr_typed(value),
    ensures
        no_single_value(lin_assign(op, place, value, s)),
    decreases value, 1nat,
{
    lemma_lin_expr_typed(value, s);
}

/// [`lemma_lin_expr_typed`] for the arguments of a call.
pub proof fn lemma_lin_args_typed(args: Seq<ExprView>, n: nat, s: LinState)
    requires
        sound(s),
        placed(s),
        exprs_typed(args),
    ensures
        no_single_value(lin_args(args, n, s)),
    decreases args, n,
{
    if !(n == 0 || n > args.len()) {
        lemma_lin_args_typed(args, (n - 1) as nat, s);
        lemma_lin_args(args, (n - 1) as nat, s);
        if let Ok((_, s1)) = lin_args(args, (n - 1) as nat, s) {
            lemma_lin_expr_typed(args[n - 1], s1);
        }
    }
}

/// [`lemma_lin_expr_typed`] for a call.
pub proof fn lemma_lin_call_typed(
    callee: IdentView,
    args: Seq<ExprView>,
    yields: bool,
    s: LinState,
)
    requires
        sound(s),
        placed(s),
        exprs_typed(args),
    ensures
        lin_call(callee, args, yields, s) matches Ok((Some(_), _)) ==> yields,
        no_single_value(lin_call(callee, args, yields, s)),
    decreases args, args.len() + 1,
{
    lemma_lin_args_typed(args, args.len(), s);
}

/// A typed block falls through with a value only if its tail has a type.
pub proof fn lemma_lin_block_typed(b: BlockView, s: LinState)
    requires
        sound(s),
        block_typed(b),
    ensures
        lin_block(b, s) matches Ok((out, _)) ==> (out.tail is Value ==> tail_type(b).is_some()),
        no_single_value(lin_block(b, s)),
    decreases b, 1nat,
{
    lemma_new_block(s);
    let (first, s1) = s.new_block();
    lemma_at(s1, first);
    let s2 = s1.at(first);
    lemma_lin_stmts_typed(b.statements, b.statements.len(), s2);
    lemma_lin_stmts(b.statements, b.statements.len(), s2);
    if let Ok((returned, s3)) = lin_stmts(b.statements, b.statements.len(), s2) {
        if !returned {
            lemma_lin_opt_expr_typed(b.tail, s3);
        }
    }
}

/// [`lemma_lin_expr_typed`] for statements.
pub proof fn lemma_lin_stmts_typed(ss: Seq<StmtView>, n: nat, s: LinState)
    requires
        sound(s),
        placed(s),
        stmts_typed(ss),
    ensures
        no_single_value(lin_stmts(ss, n, s)),
    decreases ss, n,
{
    if !(n == 0 || n > ss.len()) {
        lemma_lin_stmts_typed(ss, (n - 1) as nat, s);
        lemma_lin_stmts(ss, (n - 1) as nat, s);
        if let Ok((returned, s1)) = lin_stmts(ss, (n - 1) as nat, s) {
            if !returned {
                lemma_lin_stmt_typed(ss[n - 1], s1);
            }
        }
    }
}

/// [`lemma_lin_expr_typed`] for a statement.
pub proof fn lemma_lin_stmt_typed(st: StmtView, s: LinState)
    requires
        sound(s),
        placed(s),
        stmt_typed(st),
    ensures
        no_single_value(lin_stmt(st, s)),
    decreases st, 2nat,
{
    match st {
        StmtView::Eval(e) => {
            lemma_lin_expr_typed(e, s);
        },
        StmtView::Return(e) => {
            lemma_lin_opt_expr_typed(e, s);
        },
        StmtView::Decl(name, e) => {
            lemma_lin_expr_typed(e, s);
        },
        StmtView::Break(e) => {
            lemma_lin_opt_expr_typed(e, s);
        },
    }
}

/// [`lemma_lin_expr_typed`] for a block that stands as an expression.
pub proof fn lemma_lin_block_expr_typed(b: BlockView, s: LinState)
    requires
        sound(s),
        placed(s),
        block_typed(b),
    ensures
        lin_block_expr(b, s) matches Ok((Some(_), _)) ==> tail_type(b).is_some(),
        no_single_value(lin_block_expr(b, s)),
    decreases b, 2nat,
{
    lemma_lin_block_typed(b, s);
}

/// [`lemma_lin_expr_typed`] for a conditional.
pub proof fn lemma_lin_if_typed(i: IfView, s: LinState)
    requires
        sound(s),
        placed(s),
        if_typed(i),
    ensures
        lin_if(i, s) matches Ok((Some(_), _)) ==> tail_type(*i.then_block).is_some(),
        no_single_value(lin_if(i, s)),
    decreases i, 3nat,
{
    lemma_lin_expr_typed(*i.cond, s);
    lemma_lin_expr(*i.cond, s);
    if let Ok((_, s1)) = lin_expr(*i.cond, s) {
        lemma_lin_block_typed(*i.then_block, s1);
        lemma_lin_block(*i.then_block, s1);
        if let Ok((_, s2)) = lin_block(*i.then_block, s1) {
            if let Some(b) = i.else_block {
                lemma_lin_block_typed(*b, s2);
            }
        }
    }
}

/// [`lemma_lin_expr_typed`] for a loop: it has a value only if its
/// `break`s carry one.
pub proof fn lemma_lin_loop_typed(ty: Option<TypeView>, body: BlockView, s: LinState)
    requires
        sound(s),
        placed(s),
        block_typed(body),
    ensures
        typed_if_valued(lin_loop(ty, body, s), ty),
        no_single_value(lin_loop(ty, body, s)),
    decreases body, 2nat,
{
    lemma_new_block(s);
    let (cont, s1) = s.new_block();
    let carries = carries_value(ty);
    lemma_enter_loop(s1, cont, carries);
    let s1e = s1.enter_loop(cont, carries);
    lemma_lin_block_typed(body, s1e);
    lemma_lin_block(body, s1e);
    if let Ok((out, s2)) = lin_block(body, s1e) {
        assert(s2.loops[s2.loops.len() - 1].carries == s1e.loops[s1e.loops.len() - 1].carries);
    }
}

/// The inconsistencies in what is referred to: the use of a local that has
/// no slot or of a place that is no local, the use of a string constant
/// that is not in the pool, and a `break` outside a loop.
pub open spec fn unresolved(k: LinearizeError) -> bool {
    k is UnknownLocal || k is UnsupportedPlace || k is UnknownConstant || k is BreakOutsideLoop
}

/// Whether a result of linearization is no inconsistency in what is
/// referred to.
pub open spec fn resolved<T>(r: crate::linear::Lin<T>) -> bool {
    r matches Err((k, _)) ==> !unresolved(k)
}

/// The inconsistencies that lowering rules out: those in what is referred
/// to, and a conditional without an else-branch that yields a value.
pub open spec fn ruled_out(k: LinearizeError) -> bool {
    unresolved(k) || k is ValueInSingleBranchIf
}

/// Whether a result of linearization is none of the inconsistencies that
/// lowering rules out.
pub open spec fn consistent<T>(r: Result<T, LinearizeError>) -> bool {
    r matches Err(k) ==> !ruled_out(k)
}

/// The names that have a slot.
pub open spec fn slot_names(slots: Seq<SlotView>) -> Set<Seq<char>> {
    Set::new(|n: Seq<char>| exists|i: int| 0 <= i < slots.len() && (#[trigger] slots[i]).name == n)
}

/// A name that has a slot stands for one.
pub proof fn lemma_slot_found(slots: Seq<SlotView>, name: Seq<char>)
    requires
        slot_names(slots).contains(name),
    ensures
        slot_named(slots, name).is_some(),
    decreases slots.len(),
{
    let i = choose|i: int| 0 <= i < slots.len() && (#[trigger] slots[i]).name == name;
    if slots.last().name != name {
        let rest = slots.drop_last();
        assert(rest[i].name == name);
        lemma_slot_found(rest, name);
    }
}

/// A known place has a slot.
pub proof fn lemma_place_found(p: LExprView, slots: Seq<SlotView>)
    requires
        place_known(p, slot_names(slots)),
    ensures
        place_slot(p, slots).is_ok(),
{
    if let LValueView::Var(IdentView::Local(n)) = p.value {
        lemma_slot_found(slots, n);
    }
}

/// Whether an expression uses only what a state of linearization has.
pub open spec fn expr_fits(e: ExprView, s: LinState) -> bool {
    expr_known(e, slot_names(s.graph.slots), s.loops.len(), s.consts as nat)
}

/// Whether a block uses only what a state of linearization has.
pub open spec fn block_fits(b: BlockView, s: LinState) -> bool {
    block_known(b, slot_names(s.graph.slots), s.loops.len(), s.consts as nat)
}

/// An expression that uses only what is there is linearized without any
/// inconsistency in what is referred to.
pub proof fn lemma_lin_expr_resolved(e: ExprView, s: LinState)
    requires
        sound(s),
        placed(s),
        expr_fits(e, s),
    ensures
        resolved(lin_expr(e, s)),
    decreases e, 0nat,
{
    match e.value {
        ValueView::ConstInt(_) => {},
        ValueView::ConstStr(_) => {},
        ValueView::LExpr(place) => {
            lemma_place_found(place, s.graph.slots);
        },
        ValueView::Assign(op, place, value) => {
            lemma_lin_assign_resolved(op, place, *value, s);
        },
        ValueView::Op(op, l, r) => {
            lemma_lin_expr_resolved(*l, s);
            lemma_lin_expr(*l, s);
            if let Ok((_, s1)) = lin_expr(*l, s) {
                lemma_lin_expr_resolved(*r, s1);
            }
        },
        ValueView::CallConcrete(callee, args) => {
            lemma_lin_call_resolved(callee, args, e.ty.is_some(), s);
        },
        ValueView::Block(b) => {
            lemma_lin_block_expr_resolved(*b, s);
        },
        ValueView::If(i) => {
            lemma_lin_if_resolved(i, s);
        },
        ValueView::Loop(b) => {
            lemma_lin_loop_resolved(e.ty, *b, s);
        },
    }
}

/// [`lemma_lin_expr_resolved`] for an assignment.
pub proof fn lemma_lin_assign_resolved(
    op: Option<crate::types::Op>,
    place: LExprView,
    value: ExprView,
    s: LinState,
)
    requires
        sound(s),
        placed(s),
        place_known(place, slot_names(s.graph.slots)),
        expr_fits(value, s),
    ensures
        resolved(lin_assign(op, place, value, s)),
    decreases value, 1nat,
{
    lemma_lin_expr_resolved(value, s);
    lemma_lin_expr(value, s);
    if let Ok((_, s1)) = lin_expr(value, s) {
        lemma_place_found(place, s1.graph.slots);
    }
}

/// [`lemma_lin_expr_resolved`] for a call.
pub proof fn lemma_lin_call_resolved(
    callee: IdentView,
    args: Seq<ExprView>,
    yields: bool,
    s: LinState,
)
    requires
        sound(s),
        placed(s),
        exprs_known(args, slot_names(s.graph.slots), s.loops.len(), s.consts as nat),
    ensures
        resolved(lin_call(callee, args, yields, s)),
    decreases args, args.len() + 1,
{
    lemma_lin_args_resolved(args, args.len(), s);
}

/// [`lemma_lin_expr_resolved`] for a block that stands as an expression.
pub proof fn lemma_lin_block_expr_resolved(b: BlockView, s: LinState)
    requires
        sound(s),
        placed(s),
        block_fits(b, s),
    ensures
        resolved(lin_block_expr(b, s)),
    decreases b, 2nat,
{
    lemma_lin_block_resolved(b, s);
}

/// [`lemma_lin_expr_resolved`] for a conditional.
pub proof fn lemma_lin_if_resolved(i: IfView, s: LinState)
    requires
        sound(s),
        placed(s),
        if_known(i, slot_names(s.graph.slots), s.loops.len(), s.consts as nat),
    ensures
        resolved(lin_if(i, s)),
    decreases i, 3nat,
{
    lemma_lin_expr_resolved(*i.cond, s);
    lemma_lin_expr(*i.cond, s);
    if let Ok((_, s1)) = lin_expr(*i.cond, s) {
        lemma_lin_block_resolved(*i.then_block, s1);
        lemma_lin_block(*i.then_block, s1);
        if let Ok((_, s2)) = lin_block(*i.then_block, s1) {
            if let Some(b) = i.else_block {
                lemma_lin_block_resolved(*b, s2);
            }
        }
    }
}

/// [`lemma_lin_expr_resolved`] for a loop.
pub proof fn lemma_lin_loop_resolved(ty: Option<TypeView>, body: BlockView, s: LinState)
    requires
        sound(s),
        placed(s),
        block_known(body, slot_names(s.graph.slots), s.loops.len() + 1, s.consts as nat),
    ensures
        resolved(lin_loop(ty, body, s)),
    decreases body, 2nat,
{
    lemma_new_block(s);
    let (cont, s1) = s.new_block();
    lemma_enter_loop(s1, cont, carries_value(ty));
    lemma_lin_block_resolved(body, s1.enter_loop(cont, carries_value(ty)));
}

/// [`lemma_lin_expr_resolved`] for an optional expression.
pub proof fn lemma_lin_opt_expr_resolved(e: Option<ExprView>, s: LinState)
    requires
        sound(s),
        placed(s),
        opt_expr_known(e, slot_names(s.graph.slots), s.loops.len(), s.consts as nat),
    ensures
        resolved(lin_opt_expr(e, s)),
    decreases e, 1nat,
{
    if let Some(e) = e {
        lemma_lin_expr_resolved(e, s);
    }
}

/// [`lemma_lin_expr_resolved`] for the arguments of a call.
pub proof fn lemma_lin_args_resolved(args: Seq<ExprView>, n: nat, s: LinState)
    requires
        sound(s),
        placed(s),
        exprs_known(args, slot_names(s.graph.slots), s.loops.len(), s.consts as nat),
    ensures
        resolved(lin_args(args, n, s)),
    decreases args, n,
{
    if !(n == 0 || n > args.len()) {
        lemma_lin_args_resolved(args, (n - 1) as nat, s);
        lemma_lin_args(args, (n - 1) as nat, s);
        if let Ok((_, s1)) = lin_args(args, (n - 1) as nat, s) {
            lemma_lin_expr_resolved(args[n - 1], s1);
        }
    }
}

/// [`lemma_lin_expr_resolved`] for a block.
pub proof fn lemma_lin_block_resolved(b: BlockView, s: LinState)
    requires
        sound(s),
        block_fits(b, s),
    ensures
        resolved(lin_block(b, s)),
    decreases b, 1nat,
{
    lemma_new_block(s);
    let (first, s1) = s.new_block();
    lemma_at(s1, first);
    let s2 = s1.at(first);
    lemma_lin_stmts_resolved(b.statements, b.statements.len(), s2);
    lemma_lin_stmts(b.statements, b.statements.len(), s2);
    if let Ok((returned, s3)) = lin_stmts(b.statements, b.statements.len(), s2) {
        if !returned {
            lemma_lin_opt_expr_resolved(b.tail, s3);
        }
    }
}

/// [`lemma_lin_expr_resolved`] for statements.
pub proof fn lemma_lin_stmts_resolved(ss: Seq<StmtView>, n: nat, s: LinState)
    requires
        sound(s),
        placed(s),
        stmts_known(ss, slot_names(s.graph.slots), s.loops.len(), s.consts as nat),
    ensures
        resolved(lin_stmts(ss, n, s)),
    decreases ss, n,
{
    if !(n == 0 || n > ss.len()) {
        lemma_lin_stmts_resolved(ss, (n - 1) as nat, s);
        lemma_lin_stmts(ss, (n - 1) as nat, s);
        if let Ok((returned, s1)) = lin_stmts(ss, (n - 1) as nat, s) {
            if !returned {
                lemma_lin_stmt_resolved(ss[n - 1], s1);
            }
        }
    }
}

/// [`lemma_lin_expr_resolved`] for a statement.
pub proof fn lemma_lin_stmt_resolved(st: StmtView, s: LinState)
    requires
        sound(s),
        placed(s),
        stmt_known(st, slot_names(s.graph.slots), s.loops.len(), s.consts as nat),
    ensures
        resolved(lin_stmt(st, s)),
    decreases st, 2nat,
{
    match st {
        StmtView::Eval(e) => {
            lemma_lin_expr_resolved(e, s);
        },
        StmtView::Return(e) => {
            lemma_lin_opt_expr_resolved(e, s);
        },
        StmtView::Decl(name, e) => {
            lemma_slot_found(s.graph.slots, name);
            lemma_lin_expr_resolved(e, s);
        },
        StmtView::Break(e) => {
            lemma_lin_opt_expr_resolved(e, s);
            lemma_lin_opt_expr(e, s);
        },
    }
}

/// The names of the parameters of a function.
pub open spec fn param_names(params: Seq<(Seq<char>, TypeView)>) -> Set<Seq<char>> {
    Set::new(|n: Seq<char>| exists|i: int| 0 <= i < params.len() && (#[trigger] params[i]).0 == n)
}

/// Locals get slots under their names, in order.
pub proof fn lemma_decl_slots_names(decls: Seq<DeclView>, n: nat)
    requires
        n <= decls.len(),
        forall|i: int| 0 <= i < n ==> (#[trigger] decls[i]).name is Local,
    ensures
        decl_slots(decls, n) matches Ok(slots) && slots.len() == n && forall|i: int|
            0 <= i < n ==> (#[trigger] decls[i]).name == IdentView::Local(slots[i].name),
    decreases n,
{
    if n > 0 {
        lemma_decl_slots_names(decls, (n - 1) as nat);
        assert(decls[n - 1].name is Local);
        let before = decl_slots(decls, (n - 1) as nat).unwrap();
        let slots = decl_slots(decls, n).unwrap();
        assert forall|i: int| 0 <= i < n implies (#[trigger] decls[i]).name == IdentView::Local(
            slots[i].name,
        ) by {
            if i < n - 1 {
                assert(slots[i] == before[i]);
            }
        }
    }
}

/// The arguments of parameters that have slots are stored without any
/// inconsistency: the only one there can be is a parameter without a slot.
pub proof fn lemma_lin_params_resolved(params: Seq<(Seq<char>, TypeView)>, n: nat, s: LinState)
    requires
        sound(s),
        placed(s),
        n <= params.len() <= usize::MAX,
        s.graph.params == params.len(),
        forall|i: int|
            0 <= i < params.len() ==> slot_names(s.graph.slots).contains((#[trigger] params[i]).0),
    ensures
        lin_params(params, n, s).is_ok(),
    decreases n,
{
    if n > 0 {
        lemma_lin_params_resolved(params, (n - 1) as nat, s);
        crate::closed::lemma_lin_params(params, (n - 1) as nat, s);
        if let Ok(s1) = lin_params(params, (n - 1) as nat, s) {
            assert(slot_names(s1.graph.slots).contains(params[n - 1].0));
            lemma_slot_found(s1.graph.slots, params[n - 1].0);
        }
    }
}

/// A lowered body is consistent in what lowering checks. If only the
/// parameters of a function are in scope where its body is lowered, the
/// body is linearized, with those parameters, without any of the
/// inconsistencies that lowering rules out: every local that it uses has a
/// slot, every place that it uses is a local, every string constant that it
/// uses is in the pool, every `break` in it stands in a loop, and no
/// conditional without an else-branch in it yields a value.
pub proof fn law_lowered_body_is_consistent(
    b: ast::Block,
    st: LowerState,
    params: Seq<(Seq<char>, TypeView)>,
    consts: usize,
)
    requires
        params.len() <= usize::MAX,
        scopes_known(st.names, param_names(params)),
    ensures
        crate::module::lower_body(b, st) matches Ok((body, st1)) ==> (st1.strings.len() <= consts
            ==> consistent(lin_fn_body(body, params, consts))),
{
    let st0 = LowerState { decls: Seq::empty(), loops: Seq::empty(), ..st };
    if let Ok((block, st1)) = lower_block(b, st0) {
        if st1.strings.len() <= consts {
            lemma_block_balanced(b, st0);
            assert forall|i: int| 0 <= i < st1.decls.len() implies (
            #[trigger] st1.decls[i]).name is Local by {}
            lemma_decl_slots_names(st1.decls, st1.decls.len());
            let locals = decl_slots(st1.decls, st1.decls.len()).unwrap();
            let slots = param_slots(params) + locals;
            let known = slot_names(slots);
            assert forall|n: Seq<char>| param_names(params).contains(n) implies known.contains(
                n,
            ) by {
                let i = choose|i: int| 0 <= i < params.len() && (#[trigger] params[i]).0 == n;
                assert(slots[i].name == n);
            }
            assert(scopes_known(st0.names, known));
            assert forall|i: int| 0 <= i < st1.decls.len() implies decl_known(
                #[trigger] st1.decls[i],
                known,
            ) by {
                assert(slots[params.len() + i].name == locals[i].name);
                assert(st1.decls[i].name == IdentView::Local(locals[i].name));
            }
            assert(within(st0, st1, known, consts as nat));
            lemma_block_known(b, st0, known, consts as nat);

            let s0 = initial(params.len() as usize, slots, consts);
            assert(sound(s0)) by {
                reveal(sound);
            }
            lemma_new_block(s0);
            let (start, s1) = s0.new_block();
            lemma_at(s1, start);
            let s2 = s1.at(start);
            assert forall|i: int| 0 <= i < params.len() implies slot_names(
                s2.graph.slots,
            ).contains((#[trigger] params[i]).0) by {
                assert(slots[i].name == params[i].0);
            }
            lemma_lin_params_resolved(params, params.len(), s2);
            crate::closed::lemma_lin_params(params, params.len(), s2);
            let s3 = (lin_params(params, params.len(), s2)->Ok_0);
            lemma_lin_block_resolved(block, s3);
            lemma_block_typed(b, st0);
            lemma_lin_block_typed(block, s3);
        }
    }
}

/// The scope of the parameters of a function binds exactly the names of
/// the parameters, each to a local of that name.
pub proof fn lemma_param_scope_known(ps: Seq<(String, ast::Type)>, n: nat)
    requires
        n <= ps.len(),
    ensures
        crate::module::param_scope(ps, n) matches Ok(scope) ==> {
            &&& crate::module::lower_params(ps, n) matches Ok(params)
            &&& params.len() == n
            &&& forall|i: int| 0 <= i < n ==> (#[trigger] params[i]).0 == ps[i].0@
            &&& forall|k: Seq<char>| #[trigger]
                scope.contains_key(k) ==> scope[k].name == IdentView::Local(k) && exists|i: int|
                    0 <= i < n && ps[i].0@ == k
        },
    decreases n,
{
    if n > 0 {
        lemma_param_scope_known(ps, (n - 1) as nat);
        if let Ok(scope) = crate::module::param_scope(ps, n) {
            let before = crate::module::param_scope(ps, (n - 1) as nat).unwrap();
            let params = crate::module::lower_params(ps, n).unwrap();
            let done = crate::module::lower_params(ps, (n - 1) as nat).unwrap();
            assert forall|i: int| 0 <= i < n implies (#[trigger] params[i]).0 == ps[i].0@ by {
                if i < n - 1 {
                    assert(params[i] == done[i]);
                }
            }
            assert forall|k: Seq<char>| #[trigger] scope.contains_key(k) implies scope[k].name
                == IdentView::Local(k) && exists|i: int| 0 <= i < n && ps[i].0@ == k by {
                if k == ps[n - 1].0@ {
                    assert(ps[n - 1].0@ == k);
                } else {
                    assert(before.contains_key(k));
                    let i = choose|i: int| 0 <= i < n - 1 && ps[i].0@ == k;
                    assert(ps[i].0@ == k);
                }
            }
        }
    }
}

/// A lowered definition is consistent in what lowering checks. Where no
/// scope is open between the definitions of a file, which is so from the
/// start, the body of every function that is lowered is linearized, with
/// the parameters of the function, without any of the inconsistencies that
/// lowering rules out, and so is the body of the entry point, which has no
/// parameters. No scope is open afterwards either.
pub proof fn law_lowered_definition_is_consistent(
    d: ast::TopLevelDecl,
    ms: crate::module::ModuleState,
    consts: usize,
)
    requires
        ms.st.names.scopes.len() == 0,
    ensures
        crate::module::lower_def(d, ms) matches Ok(ms1) ==> {
            &&& ms1.st.names.scopes.len() == 0
            &&& ms1.st.strings.len() <= consts ==> match d {
                ast::TopLevelDecl::Def(ast::TopLevelDef::Entry(e)) => ms1.entry.is_some()
                    && consistent(lin_fn_body(ms1.entry.unwrap().body, Seq::empty(), consts)),
                ast::TopLevelDecl::Def(ast::TopLevelDef::Def(ast::Def::Fn(f))) => ms1.fn_defs.len()
                    > 0 && crate::module::lower_params(f.params@, f.params@.len()).is_ok()
                    && consistent(
                    lin_fn_body(
                        ms1.fn_defs.last().body,
                        crate::module::lower_params(f.params@, f.params@.len()).unwrap(),
                        consts,
                    ),
                ),
                _ => true,
            }
        },
{
    reveal(crate::module::lower_def);
    if let Ok(ms1) = crate::module::lower_def(d, ms) {
        match d {
            ast::TopLevelDecl::Def(ast::TopLevelDef::Entry(e)) => {
                let none = Seq::<(Seq<char>, TypeView)>::empty();
                law_lowered_body_is_consistent(e.body, ms.st, none, consts);
                let st0 = LowerState { decls: Seq::empty(), loops: Seq::empty(), ..ms.st };
                lemma_block_balanced(e.body, st0);
            },
            ast::TopLevelDecl::Def(ast::TopLevelDef::Def(ast::Def::Fn(f))) => {
                lemma_param_scope_known(f.params@, f.params@.len());
                let scope = crate::module::param_scope(f.params@, f.params@.len()).unwrap();
                let params = crate::module::lower_params(f.params@, f.params@.len()).unwrap();
                let st_fn = LowerState {
                    names: NamesView { scopes: ms.st.names.scopes.push(scope), ..ms.st.names },
                    ..ms.st
                };
                assert forall|k: int, n: Seq<char>|
                    0 <= k < st_fn.names.scopes.len() && #[trigger] st_fn.names.scopes[k].contains_key(
                        n,
                    ) implies st_fn.names.scopes[k][n].name == IdentView::Local(n) && param_names(
                    params,
                ).contains(n) by {
                    assert(st_fn.names.scopes[k] == scope);
                    assert(scope.contains_key(n));
                    let i = choose|i: int| 0 <= i < f.params@.len() && f.params@[i].0@ == n;
                    assert(params[i].0 == n);
                }
                assert(f.params@.len() == f.params.len());
                law_lowered_body_is_consistent(f.body, st_fn, params, consts);
                let st0 = LowerState { decls: Seq::empty(), loops: Seq::empty(), ..st_fn };
                lemma_block_balanced(f.body, st0);
                let st1 = (lower_block(f.body, st0)->Ok_0).1;
                assert(st1.names.scopes =~= seq![scope]);
                assert(st1.names.scopes.drop_last().len() == 0);
            },
            _ => {},
        }
    }
}

} // verus!
