//! What lowering computes, as a mathematical function from a syntax tree and
//! the state of the pass to the lowered tree and the state afterwards.

use vstd::prelude::*;
use crate::ast;
use crate::error::LIRErrorType;
use crate::lir::{
    BlockView, DeclFnView, DeclView, ExprView, IfView, LExprView, LValueView, StmtView, ValueView,
};
use crate::scope::NamesView;
use crate::types::{IdentView, Op, Primitive, TypeView};

verus! {

/// The state that is threaded through the lowering of one function body.
pub struct LowerState {
    /// The function table and the scope stack.
    pub names: NamesView,
    /// The locals declared so far in the body, in order.
    pub decls: Seq<DeclView>,
    /// One entry per enclosing loop, innermost last: the type that the
    /// `break`s seen so far agree on, once there was one.
    pub loops: Seq<Option<Option<TypeView>>>,
    /// The string constants interned so far.
    pub strings: Seq<(Seq<u8>, bool)>,
}

/// The result of lowering under a state: the lowered item and the state
/// afterwards, or the error that aborts the pass and the state in which
/// the pass is left. Where an error is found, every scope that was opened
/// on the way to it is closed and every loop that was entered is left;
/// what was declared or interned before stays.
pub type Lowered<T> = Result<(T, LowerState), (LIRErrorType, LowerState)>;

impl LowerState {
    pub open spec fn push_scope(self) -> LowerState {
        LowerState { names: self.names.push_scope(), ..self }
    }

    pub open spec fn pop_scope(self) -> LowerState {
        LowerState { names: self.names.pop_scope(), ..self }
    }

    /// A local is declared: it is bound in the innermost scope and recorded
    /// among the locals of the body.
    pub open spec fn declare(self, name: Seq<char>, decl: DeclView) -> LowerState {
        LowerState { names: self.names.declare(name, decl), decls: self.decls.push(decl), ..self }
    }

    pub open spec fn enter_loop(self) -> LowerState {
        LowerState { loops: self.loops.push(None), ..self }
    }

    /// The type of the innermost loop: what its `break`s carry, and `Never`
    /// if it has none.
    pub open spec fn loop_type(self) -> Option<TypeView> {
        if self.loops.len() > 0 && self.loops.last().is_some() {
            self.loops.last().unwrap()
        } else {
            Some(TypeView::Never)
        }
    }

    pub open spec fn leave_loop(self) -> LowerState {
        if self.loops.len() == 0 {
            self
        } else {
            LowerState { loops: self.loops.drop_last(), ..self }
        }
    }

    /// A `break` that carries `ty` is met. The first one of a loop fixes the
    /// loop's type, and every later one has to agree with it.
    pub open spec fn note_break(self, ty: Option<TypeView>) -> Result<LowerState, LIRErrorType> {
        if self.loops.len() == 0 {
            Err(LIRErrorType::BreakOutsideLoop)
        } else {
            match self.loops.last() {
                Some(fixed) => if fixed == ty {
                    Ok(self)
                } else {
                    Err(LIRErrorType::MismatchedTypes)
                },
                None => Ok(
                    LowerState { loops: self.loops.update(self.loops.len() - 1, Some(ty)), ..self },
                ),
            }
        }
    }

    /// A null-terminated string constant is appended to the pool.
    pub open spec fn intern(self, bytes: Seq<u8>) -> LowerState {
        LowerState { strings: self.strings.push((bytes, true)), ..self }
    }
}

/// The primitive type that a bare type name denotes.
pub open spec fn primitive_named(name: Seq<char>) -> Option<Primitive> {
    if name == "bool"@ {
        Some(Primitive::Bool)
    } else if name == "i8"@ {
        Some(Primitive::I8)
    } else if name == "i16"@ {
        Some(Primitive::I16)
    } else if name == "i32"@ {
        Some(Primitive::I32)
    } else if name == "i64"@ {
        Some(Primitive::I64)
    } else if name == "u8"@ {
        Some(Primitive::U8)
    } else if name == "u16"@ {
        Some(Primitive::U16)
    } else if name == "u32"@ {
        Some(Primitive::U32)
    } else if name == "u64"@ {
        Some(Primitive::U64)
    } else if name == "c_char"@ {
        Some(Primitive::CChar)
    } else if name == "c_short"@ {
        Some(Primitive::CShort)
    } else if name == "c_int"@ {
        Some(Primitive::CInt)
    } else if name == "c_long"@ {
        Some(Primitive::CLong)
    } else if name == "c_longlong"@ {
        Some(Primitive::CLLong)
    } else {
        None
    }
}

/// Whether a bare name is one of the type names that resolve to an item of
/// the same name: the signed integers and the C aliases.
pub open spec fn is_item_type_name(name: Seq<char>) -> bool {
    name == "i8"@ || name == "i16"@ || name == "i32"@ || name == "i64"@ || name == "c_char"@
        || name == "c_short"@ || name == "c_int"@ || name == "c_long"@ || name == "c_longlong"@
}

/// The item that a type name resolves to.
pub open spec fn resolve_typename(path: Seq<String>) -> Option<IdentView> {
    if path.len() == 1 && is_item_type_name(path[0]@) {
        Some(IdentView::UnmangledItem(path[0]@))
    } else {
        None
    }
}

/// The resolved form of a type as written.
pub open spec fn lower_type(t: ast::Type) -> Result<TypeView, LIRErrorType>
    decreases t, 0nat,
{
    match t {
        ast::Type::Name(path) => if path@.len() == 1 && primitive_named(path@[0]@).is_some() {
            Ok(TypeView::Primitive(primitive_named(path@[0]@).unwrap()))
        } else {
            match resolve_typename(path@) {
                Some(id) => Ok(TypeView::Name(id)),
                None => Err(LIRErrorType::UnresolvedIdent),
            }
        },
        ast::Type::PtrConst(t) => match lower_type(*t) {
            Ok(v) => Ok(TypeView::PtrConst(Box::new(v))),
            Err(e) => Err(e),
        },
        ast::Type::PtrMut(t) => match lower_type(*t) {
            Ok(v) => Ok(TypeView::PtrMut(Box::new(v))),
            Err(e) => Err(e),
        },
        ast::Type::PtrDynConst(t) => match lower_type(*t) {
            Ok(v) => Ok(TypeView::PtrDynConst(Box::new(v))),
            Err(e) => Err(e),
        },
        ast::Type::PtrDynMut(t) => match lower_type(*t) {
            Ok(v) => Ok(TypeView::PtrDynMut(Box::new(v))),
            Err(e) => Err(e),
        },
        ast::Type::Slice(t) => match lower_type(*t) {
            Ok(v) => Ok(TypeView::Slice(Box::new(v))),
            Err(e) => Err(e),
        },
        ast::Type::Arr(t, n) => match lower_type(*t) {
            Ok(v) => Ok(TypeView::Arr(Box::new(v), n)),
            Err(e) => Err(e),
        },
        ast::Type::Tuple(ts) => match lower_types(ts@, ts@.len()) {
            Ok(vs) => Ok(TypeView::Tuple(vs)),
            Err(e) => Err(e),
        },
    }
}

/// The resolved forms of the first `n` of a sequence of types, or the error
/// of the first among them that does not resolve.
pub open spec fn lower_types(ts: Seq<ast::Type>, n: nat) -> Result<Seq<TypeView>, LIRErrorType>
    decreases ts, n,
{
    if n == 0 || n > ts.len() {
        Ok(Seq::empty())
    } else {
        match lower_types(ts, (n - 1) as nat) {
            Err(e) => Err(e),
            Ok(vs) => match lower_type(ts[n - 1]) {
                Err(e) => Err(e),
                Ok(v) => Ok(vs.push(v)),
            },
        }
    }
}

/// A type name resolves exactly if it is the bare name of a primitive, and
/// then to that primitive. No name resolves to a named type: the names
/// that stand for items are names of primitives all.
pub proof fn law_only_primitive_names_resolve(path: Vec<String>)
    ensures
        lower_type(ast::Type::Name(path)).is_ok() <==> path@.len() == 1 && primitive_named(
            path@[0]@,
        ).is_some(),
        lower_type(ast::Type::Name(path)) matches Ok(t) ==> t == TypeView::Primitive(
            primitive_named(path@[0]@).unwrap(),
        ),
        forall|name: Seq<char>| #[trigger]
            is_item_type_name(name) ==> primitive_named(name).is_some(),
{
}

/// The resolved form of an optional type.
pub open spec fn lower_opt_type(t: Option<ast::Type>) -> Result<Option<TypeView>, LIRErrorType> {
    match t {
        None => Ok(None),
        Some(t) => match lower_type(t) {
            Ok(v) => Ok(Some(v)),
            Err(e) => Err(e),
        },
    }
}

/// The type of the result of a binary operator: boolean for a comparison,
/// and otherwise always the 32-bit signed integer, whatever the operands are.
pub open spec fn op_result(op: Op) -> Primitive {
    match op {
        Op::Eq | Op::Gt | Op::Ge | Op::Lt | Op::Le => Primitive::Bool,
        _ => Primitive::I32,
    }
}

/// The type of an integer literal: always the 32-bit signed integer,
/// whatever its magnitude.
pub open spec fn literal_type(value: u64) -> TypeView {
    TypeView::Primitive(Primitive::I32)
}

/// Whether an expression of type `from` may stand where `to` is expected
/// although the two differ.
pub open spec fn widens(from: TypeView, to: TypeView) -> bool {
    from == TypeView::Primitive(Primitive::I32) && to == TypeView::Primitive(Primitive::CInt)
}

/// The expression seen as one of type `target`: itself if it has that type,
/// the same value under the new type if its type widens to it, and nothing
/// otherwise. Only the type changes, never the value.
pub open spec fn coerce(e: ExprView, target: TypeView) -> Option<ExprView> {
    match e.ty {
        Some(ty) => if ty == target {
            Some(e)
        } else if widens(ty, target) {
            Some(ExprView { ty: Some(target), value: e.value })
        } else {
            None
        },
        None => None,
    }
}

/// Whether a call with `n` arguments fits the signature.
pub open spec fn arity_ok(decl: DeclFnView, n: nat) -> bool {
    if decl.varadic {
        n >= decl.params.len()
    } else {
        n == decl.params.len()
    }
}

/// The type of an optional expression: that of the expression, and none
/// where there is no expression.
pub open spec fn opt_expr_type(e: Option<ExprView>) -> Option<TypeView> {
    match e {
        Some(e) => e.ty,
        None => None,
    }
}

/// The type of the value that a block yields.
pub open spec fn tail_type(b: BlockView) -> Option<TypeView> {
    opt_expr_type(b.tail)
}

/// The type of the value that an else-branch yields; none where there is no
/// else-branch.
pub open spec fn else_type(b: Option<Box<BlockView>>) -> Option<TypeView> {
    match b {
        Some(b) => tail_type(*b),
        None => None,
    }
}

/// The lowered form of an assignable place.
pub open spec fn lower_lexpr(e: ast::Expression, names: NamesView) -> Result<
    LExprView,
    LIRErrorType,
> {
    match e {
        ast::Expression::LVar(path) => match names.resolve_var_path(path@) {
            Some(decl) => Ok(
                LExprView { ty: decl.ty, mutable: decl.mutable, value: LValueView::Var(decl.name) },
            ),
            None => Err(LIRErrorType::UnresolvedIdent),
        },
        _ => Err(LIRErrorType::InvalidLValueExpr),
    }
}

/// The lowered form of an expression.
pub open spec fn lower_expr(e: ast::Expression, st: LowerState) -> Lowered<ExprView>
    decreases e, 0nat,
{
    match e {
        ast::Expression::Assign(lhs, op, rhs) => match lower_lexpr(*lhs, st.names) {
            Err(k) => Err((k, st)),
            Ok(target) => if !target.mutable {
                Err((LIRErrorType::ImmutAssign, st))
            } else {
                match lower_expr(*rhs, st) {
                    Err(k) => Err(k),
                    Ok((value, st1)) => match coerce(value, target.ty) {
                        None => Err((LIRErrorType::MismatchedTypes, st1)),
                        Some(value) => Ok(
                            (
                                ExprView {
                                    ty: Some(target.ty),
                                    value: ValueView::Assign(op, target, Box::new(value)),
                                },
                                st1,
                            ),
                        ),
                    },
                }
            },
        },
        ast::Expression::Op(op, lhs, rhs) => match lower_expr(*lhs, st) {
            Err(k) => Err(k),
            Ok((l, st1)) => match lower_expr(*rhs, st1) {
                Err(k) => Err(k),
                Ok((r, st2)) => Ok(
                    (
                        ExprView {
                            ty: Some(TypeView::Primitive(op_result(op))),
                            value: ValueView::Op(op, Box::new(l), Box::new(r)),
                        },
                        st2,
                    ),
                ),
            },
        },
        ast::Expression::Call(callee, args) => match *callee {
            ast::Expression::LVar(path) => match st.names.resolve_fn_path(path@) {
                None => Err((LIRErrorType::UnresolvedIdent, st)),
                Some(decl) => if !arity_ok(decl, args@.len()) {
                    Err((LIRErrorType::ArgCountMismatch, st))
                } else {
                    match lower_args(args@, args@.len(), decl.params, st) {
                        Err(k) => Err(k),
                        Ok((values, st1)) => Ok(
                            (
                                ExprView {
                                    ty: decl.returns,
                                    value: ValueView::CallConcrete(decl.id, values),
                                },
                                st1,
                            ),
                        ),
                    }
                },
            },
            _ => Err((LIRErrorType::UnresolvedIdent, st)),
        },
        ast::Expression::Int(n) => Ok(
            (ExprView { ty: Some(literal_type(n)), value: ValueView::ConstInt(n) }, st),
        ),
        ast::Expression::Block(b) => match lower_block(*b, st) {
            Err(k) => Err(k),
            Ok((block, st1)) => Ok(
                (ExprView { ty: tail_type(block), value: ValueView::Block(Box::new(block)) }, st1),
            ),
        },
        ast::Expression::If(i) => match lower_if(i, st) {
            Err(k) => Err(k),
            Ok((cond, st1)) => Ok(
                (ExprView { ty: tail_type(*cond.then_block), value: ValueView::If(cond) }, st1),
            ),
        },
        ast::Expression::Loop(b) => match lower_block(*b, st.enter_loop()) {
            Err((k, st1)) => Err((k, st1.leave_loop())),
            Ok((block, st1)) => Ok(
                (
                    ExprView { ty: st1.loop_type(), value: ValueView::Loop(Box::new(block)) },
                    st1.leave_loop(),
                ),
            ),
        },
        ast::Expression::CStringRef(bytes) => Ok(
            (
                ExprView {
                    ty: Some(
                        TypeView::PtrConst(Box::new(TypeView::Primitive(Primitive::CChar))),
                    ),
                    value: ValueView::ConstStr(st.strings.len() as usize),
                },
                st.intern(bytes@),
            ),
        ),
        ast::Expression::LVar(_) => match lower_lexpr(e, st.names) {
            Err(k) => Err((k, st)),
            Ok(place) => Ok((ExprView { ty: Some(place.ty), value: ValueView::LExpr(place) }, st)),
        },
    }
}

/// The lowered form of an optional expression.
pub open spec fn lower_opt_expr(e: Option<ast::Expression>, st: LowerState) -> Lowered<
    Option<ExprView>,
>
    decreases e, 0nat,
{
    match e {
        None => Ok((None, st)),
        Some(e) => match lower_expr(e, st) {
            Err(k) => Err(k),
            Ok((v, st1)) => Ok((Some(v), st1)),
        },
    }
}

/// The lowered forms of the first `n` arguments of a call, in order. An
/// argument that has a parameter is coerced to the parameter's type; the
/// arguments beyond the parameters are lowered and left as they are.
pub open spec fn lower_args(
    args: Seq<ast::Expression>,
    n: nat,
    params: Seq<(Seq<char>, TypeView)>,
    st: LowerState,
) -> Lowered<Seq<ExprView>>
    decreases args, n,
{
    if n == 0 || n > args.len() {
        Ok((Seq::empty(), st))
    } else {
        match lower_args(args, (n - 1) as nat, params, st) {
            Err(k) => Err(k),
            Ok((values, st1)) => match lower_expr(args[n - 1], st1) {
                Err(k) => Err(k),
                Ok((value, st2)) => if n - 1 < params.len() {
                    match coerce(value, params[n - 1].1) {
                        None => Err((LIRErrorType::MismatchedTypes, st2)),
                        Some(value) => Ok((values.push(value), st2)),
                    }
                } else {
                    Ok((values.push(value), st2))
                },
            },
        }
    }
}

/// The lowered form of a block: its statements and tail are lowered in a
/// scope of their own.
pub open spec fn lower_block(b: ast::Block, st: LowerState) -> Lowered<BlockView>
    decreases b, 0nat,
{
    match lower_stmts(b.statements@, b.statements@.len(), st.push_scope()) {
        Err((k, st1)) => Err((k, st1.pop_scope())),
        Ok((statements, st1)) => match lower_opt_expr(b.tail, st1) {
            Err((k, st2)) => Err((k, st2.pop_scope())),
            Ok((tail, st2)) => Ok((BlockView { statements, tail }, st2.pop_scope())),
        },
    }
}

/// The lowered forms of the first `n` statements of a sequence, in order.
pub open spec fn lower_stmts(ss: Seq<ast::Statement>, n: nat, st: LowerState) -> Lowered<
    Seq<StmtView>,
>
    decreases ss, n,
{
    if n == 0 || n > ss.len() {
        Ok((Seq::empty(), st))
    } else {
        match lower_stmts(ss, (n - 1) as nat, st) {
            Err(k) => Err(k),
            Ok((done, st1)) => match lower_stmt(ss[n - 1], st1) {
                Err(k) => Err(k),
                Ok((s, st2)) => Ok((done.push(s), st2)),
            },
        }
    }
}

/// The initialiser of a declaration seen as one of the declared type, where
/// a type is declared.
pub open spec fn ascribe(value: ExprView, expected: Option<ast::Type>) -> Result<
    ExprView,
    LIRErrorType,
> {
    match expected {
        None => Ok(value),
        Some(t) => match lower_type(t) {
            Err(k) => Err(k),
            Ok(ty) => match coerce(value, ty) {
                None => Err(LIRErrorType::MismatchedTypes),
                Some(value) => Ok(value),
            },
        },
    }
}

/// The lowered form of a statement.
pub open spec fn lower_stmt(s: ast::Statement, st: LowerState) -> Lowered<StmtView>
    decreases s, 0nat,
{
    match s {
        ast::Statement::Expression(e) => match lower_expr(e, st) {
            Err(k) => Err(k),
            Ok((v, st1)) => Ok((StmtView::Eval(v), st1)),
        },
        ast::Statement::Break(e) => match lower_opt_expr(e, st) {
            Err(k) => Err(k),
            Ok((v, st1)) => match st1.note_break(opt_expr_type(v)) {
                Err(k) => Err((k, st1)),
                Ok(st2) => Ok((StmtView::Break(v), st2)),
            },
        },
        ast::Statement::Return(e) => match lower_opt_expr(e, st) {
            Err(k) => Err(k),
            Ok((v, st1)) => Ok((StmtView::Return(v), st1)),
        },
        ast::Statement::Decl { name, mutable, expected_type, value } => match lower_expr(
            value,
            st,
        ) {
            Err(k) => Err(k),
            Ok((v, st1)) => match ascribe(v, expected_type) {
                Err(k) => Err((k, st1)),
                Ok(v) => match v.ty {
                    None => Err((LIRErrorType::VoidValue, st1)),
                    Some(ty) => Ok(
                        (
                            StmtView::Decl(name@, v),
                            st1.declare(
                                name@,
                                DeclView { name: IdentView::Local(name@), mutable, ty },
                            ),
                        ),
                    ),
                },
            },
        },
    }
}

/// The lowered form of what follows an `else`. An `else if` becomes a block
/// without statements whose tail is the nested conditional.
pub open spec fn lower_else(e: Option<ast::Else>, st: LowerState) -> Lowered<
    Option<Box<BlockView>>,
>
    decreases e, 0nat,
{
    match e {
        None => Ok((None, st)),
        Some(ast::Else::If(i)) => match lower_if(*i, st) {
            Err(k) => Err(k),
            Ok((nested, st1)) => Ok(
                (
                    Some(
                        Box::new(
                            BlockView {
                                statements: Seq::empty(),
                                tail: Some(
                                    ExprView {
                                        ty: tail_type(*nested.then_block),
                                        value: ValueView::If(nested),
                                    },
                                ),
                            },
                        ),
                    ),
                    st1,
                ),
            ),
        },
        Some(ast::Else::Block(b)) => match lower_block(*b, st) {
            Err(k) => Err(k),
            Ok((block, st1)) => Ok((Some(Box::new(block)), st1)),
        },
    }
}

/// The lowered form of a conditional. The condition has to be boolean, and
/// the two branches have to yield values of one type, or both none; a
/// conditional without an else-branch yields none.
pub open spec fn lower_if(i: ast::If, st: LowerState) -> Lowered<IfView>
    decreases i, 0nat,
{
    match lower_expr(*i.0, st) {
        Err(k) => Err(k),
        Ok((cond, st1)) => match coerce(cond, TypeView::Primitive(Primitive::Bool)) {
            None => Err((LIRErrorType::IllegalConditionExpr, st1)),
            Some(cond) => match lower_block(*i.1, st1) {
                Err(k) => Err(k),
                Ok((then_block, st2)) => match lower_else(i.2, st2) {
                    Err(k) => Err(k),
                    Ok((else_block, st3)) => if tail_type(then_block) == else_type(else_block) {
                        Ok(
                            (
                                IfView {
                                    cond: Box::new(cond),
                                    then_block: Box::new(then_block),
                                    else_block,
                                },
                                st3,
                            ),
                        )
                    } else {
                        Err((LIRErrorType::MismatchedTypes, st3))
                    },
                },
            },
        },
    }
}

/// Coercion is the identity on an expression that has the target type
/// already, and applying it twice is the same as applying it once. Where
/// it succeeds, the result has the target type and the value it had.
pub proof fn law_coerce_idempotent(e: ExprView, target: TypeView)
    ensures
        e.ty == Some(target) ==> coerce(e, target) == Some(e),
        coerce(e, target) matches Some(c) ==> c.ty == Some(target) && c.value == e.value && coerce(
            c,
            target,
        ) == Some(c),
{
}

/// Coercion fails on every pair of types that differ and are not in the
/// table of widenings, and on an expression without a value.
pub proof fn law_coerce_rejects(e: ExprView, target: TypeView)
    ensures
        coerce(e, target).is_some() <==> (e.ty matches Some(ty) && (ty == target || widens(
            ty,
            target,
        ))),
        widens(TypeView::Primitive(Primitive::I32), TypeView::Primitive(Primitive::CInt)),
        forall|from: TypeView, to: TypeView| #[trigger]
            widens(from, to) ==> from == TypeView::Primitive(Primitive::I32) && to
                == TypeView::Primitive(Primitive::CInt),
{
}

/// A conditional lowers only if its condition is boolean and its branches
/// agree: both yield a value of one and the same type, or neither yields
/// one. Without an else-branch it yields none. As an expression it has the
/// type that its branches agree on.
pub proof fn law_if_unifies(i: ast::If, st: LowerState)
    ensures
        lower_if(i, st) matches Ok((v, _)) ==> {
            &&& v.cond.ty == Some(TypeView::Primitive(Primitive::Bool))
            &&& tail_type(*v.then_block) == else_type(v.else_block)
            &&& v.else_block.is_none() ==> tail_type(*v.then_block).is_none()
        },
        lower_expr(ast::Expression::If(i), st) matches Ok((e, _)) ==> {
            &&& e.value matches ValueView::If(v)
            &&& e.ty == tail_type(*v.then_block)
            &&& e.ty == else_type(v.else_block)
            &&& e.ty.is_some() ==> v.else_block.is_some()
        },
{
}

/// The first `break` of a loop fixes the type of the loop to the type of
/// what the `break` carries. A later `break` is accepted exactly if it
/// carries the same type, and then leaves the type of the loop as it is. A
/// loop without a `break` has the type `Never`.
pub proof fn law_break_unifies(st: LowerState, first: Option<TypeView>, later: Option<TypeView>)
    ensures
        st.enter_loop().loop_type() == Some(TypeView::Never),
        st.enter_loop().note_break(first) matches Ok(st1) && st1.loop_type() == first && (
        st1.note_break(later) matches Ok(st2) ==> later == first && st2 == st1) && (later == first
            ==> st1.note_break(later) == Ok::<LowerState, LIRErrorType>(st1)) && (later != first
            ==> st1.note_break(later) == Err::<LowerState, LIRErrorType>(
            LIRErrorType::MismatchedTypes,
        )),
        st.loops.len() == 0 ==> st.note_break(first) == Err::<LowerState, LIRErrorType>(
            LIRErrorType::BreakOutsideLoop,
        ),
{
}

/// An expression has no type exactly if it yields no value. Literals,
/// variables, operators and assignments always have a type. A call has the
/// type that the function returns, a block the type of its tail, a
/// conditional the type of the tail of its branches, and a loop the type
/// that its `break`s carry, or `Never`.
pub proof fn law_expression_types(e: ast::Expression, st: LowerState)
    ensures
        lower_expr(e, st) matches Ok((v, st1)) ==> {
            &&& v.ty.is_none() ==> (v.value is CallConcrete || v.value is Block || v.value is If
                || v.value is Loop)
            &&& v.value matches ValueView::Block(b) ==> v.ty == tail_type(*b)
            &&& v.value matches ValueView::If(i) ==> v.ty == tail_type(*i.then_block) && v.ty
                == else_type(i.else_block)
            &&& v.value matches ValueView::Op(op, _, _) ==> v.ty == Some(
                TypeView::Primitive(op_result(op)),
            )
            &&& v.value matches ValueView::ConstInt(n) ==> v.ty == Some(
                TypeView::Primitive(Primitive::I32),
            )
            &&& v.value matches ValueView::ConstStr(i) ==> v.ty == Some(
                TypeView::PtrConst(Box::new(TypeView::Primitive(Primitive::CChar))),
            )
            &&& v.value matches ValueView::Assign(_, place, r) ==> place.mutable && v.ty == Some(
                place.ty,
            ) && r.ty == Some(place.ty)
            &&& v.value matches ValueView::LExpr(place) ==> v.ty == Some(place.ty)
        },
{
    match e {
        ast::Expression::Assign(lhs, op, rhs) => {
            if let Ok(target) = lower_lexpr(*lhs, st.names) {
                if let Ok((value, _)) = lower_expr(*rhs, st) {
                    law_coerce_idempotent(value, target.ty);
                }
            }
        },
        ast::Expression::If(i) => {
            law_if_unifies(i, st);
        },
        _ => {},
    }
}

/// A call to a function that is not variadic lowers only with exactly as
/// many arguments as the function has parameters, and a call to a variadic
/// function only with at least as many. Any other call is rejected for its
/// argument count, whatever the arguments are.
pub proof fn law_call_arity(path: Vec<String>, args: Vec<ast::Expression>, st: LowerState)
    requires
        st.names.resolve_fn_path(path@).is_some(),
    ensures
        !arity_ok(st.names.resolve_fn_path(path@).unwrap(), args@.len()) ==> lower_expr(
            ast::Expression::Call(Box::new(ast::Expression::LVar(path)), args),
            st,
        ) == Err::<(ExprView, LowerState), (LIRErrorType, LowerState)>(
            (LIRErrorType::ArgCountMismatch, st),
        ),
        lower_expr(ast::Expression::Call(Box::new(ast::Expression::LVar(path)), args), st).is_ok()
            ==> arity_ok(st.names.resolve_fn_path(path@).unwrap(), args@.len()),
{
}

/// An argument that has a parameter is coerced to the type of the
/// parameter; an argument beyond the parameters of a variadic function is
/// passed as it was lowered.
pub proof fn law_arguments(
    args: Seq<ast::Expression>,
    n: nat,
    params: Seq<(Seq<char>, TypeView)>,
    st: LowerState,
)
    requires
        0 < n <= args.len(),
        lower_args(args, n, params, st).is_ok(),
    ensures
        lower_args(args, (n - 1) as nat, params, st) matches Ok((before, st1)) && lower_expr(
            args[n - 1],
            st1,
        ) matches Ok((value, st2)) && lower_args(args, n, params, st) matches Ok((values, st3))
            && st3 == st2 && values.len() == n && values.drop_last() == before && (if n - 1
            < params.len() {
            coerce(value, params[n - 1].1) == Some(values.last())
        } else {
            values.last() == value
        }),
    decreases n,
{
    if n > 1 {
        law_arguments(args, (n - 1) as nat, params, st);
    }
    let before = (lower_args(args, (n - 1) as nat, params, st)->Ok_0).0;
    let values = (lower_args(args, n, params, st)->Ok_0).0;
    assert(before.len() == n - 1) by {
        if n == 1 {
        }
    }
    assert(values.drop_last() =~= before);
}

} // verus!
