//! Lowering: from the syntax tree to the lowered representation. Names are
//! resolved, types are checked and coercions are inserted.

use vstd::prelude::*;
use crate::ast;
use crate::error::{LIRError, LIRErrorType};
use crate::lir::{
    Block, Constants, Decl, DeclFn, Expression, ExpressionValue, If, LExpression,
    LExpressionValue, Statement, clone_opt_type, view_decls, view_exprs,
    view_opt_block, view_opt_expr, view_opt_type, view_params, view_stmts,
};
use crate::model::{
    LowerState, arity_ok, ascribe, coerce, literal_type, lower_args,
    lower_block, lower_else, lower_expr, lower_if, lower_lexpr, lower_opt_expr, lower_opt_type,
    lower_stmt, lower_stmts, lower_type, lower_types, op_result, primitive_named,
    resolve_typename, tail_type,
};
use crate::scope::NameResolveMap;
use crate::types::{Ident, Op, Primitive, Type, TypeView, view_types};

verus! {

/// What is known of the type of a loop while its body is lowered.
#[derive(Debug)]
pub struct LoopBreak {
    /// `None` until a `break` is met; then the type that the `break` carries,
    /// where `Some(None)` stands for a `break` without a value.
    pub ty: Option<Option<Type>>,
}

impl View for LoopBreak {
    type V = Option<Option<TypeView>>;

    open spec fn view(&self) -> Option<Option<TypeView>> {
        match self.ty {
            None => None,
            Some(t) => Some(view_opt_type(t)),
        }
    }
}

/// The models of a stack of loops, element by element.
pub open spec fn view_loops(ls: Seq<LoopBreak>) -> Seq<Option<Option<TypeView>>> {
    Seq::new(ls.len(), |i: int| ls[i]@)
}

/// The state of the lowering of one function body.
#[derive(Debug)]
pub struct Lowering {
    pub names: NameResolveMap,
    pub decls: Vec<Decl>,
    pub loops: Vec<LoopBreak>,
    pub consts: Constants,
}

impl View for Lowering {
    type V = LowerState;

    open spec fn view(&self) -> LowerState {
        LowerState {
            names: self.names@,
            decls: view_decls(self.decls@),
            loops: view_loops(self.loops@),
            strings: self.consts@,
        }
    }
}

/// Whether two optional types are the same.
pub fn same_opt_type(a: &Option<Type>, b: &Option<Type>) -> (r: bool)
    ensures
        r == (view_opt_type(*a) == view_opt_type(*b)),
{
    match (a, b) {
        (Some(a), Some(b)) => a.same(b),
        (None, None) => true,
        _ => false,
    }
}

/// A copy of a byte string.
pub fn copy_bytes(bytes: &Vec<u8>) -> (r: Vec<u8>)
    ensures
        r@ == bytes@,
{
    let mut out: Vec<u8> = Vec::new();
    let mut i: usize = 0;
    while i < bytes.len()
        invariant
            i <= bytes.len(),
            out@ == bytes@.take(i as int),
        decreases bytes.len() - i,
    {
        out.push(bytes[i]);
        i = i + 1;
        assert(out@ =~= bytes@.take(i as int));
    }
    assert(bytes@.take(bytes.len() as int) =~= bytes@);
    out
}

impl Lowering {
    /// The state at the start of a function body: no local declared, no loop
    /// entered.
    pub fn new(names: NameResolveMap, consts: Constants) -> (r: Lowering)
        ensures
            r@.names == names@,
            r@.strings == consts@,
            r@.decls == Seq::<crate::lir::DeclView>::empty(),
            r@.loops == Seq::<Option<Option<TypeView>>>::empty(),
    {
        let r = Lowering { names, decls: Vec::new(), loops: Vec::new(), consts };
        assert(r@.decls =~= Seq::empty());
        assert(r@.loops =~= Seq::empty());
        r
    }

    pub fn push_scope(&mut self)
        ensures
            final(self)@ == old(self)@.push_scope(),
    {
        self.names.push_scope();
    }

    pub fn pop_scope(&mut self)
        ensures
            final(self)@ == old(self)@.pop_scope(),
    {
        self.names.pop_scope();
    }

    /// Declares a local: binds it in the innermost scope and records it
    /// among the locals of the body.
    pub fn declare(&mut self, name: String, decl: Decl)
        ensures
            final(self)@ == old(self)@.declare(name@, decl@),
    {
        self.decls.push(decl.clone());
        self.names.declare(name, decl);
        assert(self@.decls =~= old(self)@.decls.push(decl@));
    }

    pub fn enter_loop(&mut self)
        ensures
            final(self)@ == old(self)@.enter_loop(),
    {
        self.loops.push(LoopBreak { ty: None });
        assert(self@.loops =~= old(self)@.loops.push(None));
    }

    /// Leaves the innermost loop and returns its type.
    pub fn leave_loop(&mut self) -> (ty: Option<Type>)
        ensures
            view_opt_type(ty) == old(self)@.loop_type(),
            final(self)@ == old(self)@.leave_loop(),
    {
        let top = self.loops.pop();
        proof {
            if old(self).loops@.len() > 0 {
                assert(self@.loops =~= old(self)@.loops.drop_last());
                assert(old(self)@.loops.last() == old(self).loops@.last()@);
            } else {
                assert(self@.loops =~= old(self)@.loops);
            }
        }
        match top {
            Some(LoopBreak { ty: Some(ty) }) => ty,
            _ => Some(Type::Never),
        }
    }

    /// Takes note of a `break` that carries a value of type `ty`, or none.
    pub fn note_break(&mut self, ty: Option<Type>) -> (r: Result<(), LIRError>)
        ensures
            match old(self)@.note_break(view_opt_type(ty)) {
                Ok(st) => r.is_ok() && final(self)@ == st,
                Err(k) => r matches Err(e) && e.ty == k && final(self)@ == old(self)@,
            },
    {
        let top = self.loops.pop();
        proof {
            if old(self).loops@.len() > 0 {
                assert(old(self)@.loops.last() == old(self).loops@.last()@);
            }
        }
        match top {
            None => {
                assert(self@.loops =~= old(self)@.loops);
                Err(LIRError { ty: LIRErrorType::BreakOutsideLoop })
            },
            Some(LoopBreak { ty: Some(fixed) }) => {
                let agrees = same_opt_type(&fixed, &ty);
                self.loops.push(LoopBreak { ty: Some(fixed) });
                assert(self@.loops =~= old(self)@.loops);
                if agrees {
                    Ok(())
                } else {
                    Err(LIRError { ty: LIRErrorType::MismatchedTypes })
                }
            },
            Some(LoopBreak { ty: None }) => {
                self.loops.push(LoopBreak { ty: Some(ty) });
                assert(self@.loops =~= old(self)@.loops.update(
                    old(self)@.loops.len() - 1,
                    Some(view_opt_type(ty)),
                ));
                Ok(())
            },
        }
    }

    /// Appends a null-terminated string constant to the pool and returns its
    /// index.
    pub fn intern(&mut self, bytes: Vec<u8>) -> (index: usize)
        ensures
            index == old(self)@.strings.len(),
            final(self)@ == old(self)@.intern(bytes@),
    {
        self.consts.intern(bytes, true)
    }
}

/// Whether a name is spelled as the literal is.
fn is_name(name: &String, literal: &str) -> (r: bool)
    ensures
        r == (name@ == literal@),
{
    let l = literal.to_owned();
    *name == l
}

/// The primitive type that a bare type name denotes.
pub fn primitive_from_name(name: &String) -> (r: Option<Primitive>)
    ensures
        r == primitive_named(name@),
{
    if is_name(name, "bool") {
        Some(Primitive::Bool)
    } else if is_name(name, "i8") {
        Some(Primitive::I8)
    } else if is_name(name, "i16") {
        Some(Primitive::I16)
    } else if is_name(name, "i32") {
        Some(Primitive::I32)
    } else if is_name(name, "i64") {
        Some(Primitive::I64)
    } else if is_name(name, "u8") {
        Some(Primitive::U8)
    } else if is_name(name, "u16") {
        Some(Primitive::U16)
    } else if is_name(name, "u32") {
        Some(Primitive::U32)
    } else if is_name(name, "u64") {
        Some(Primitive::U64)
    } else if is_name(name, "c_char") {
        Some(Primitive::CChar)
    } else if is_name(name, "c_short") {
        Some(Primitive::CShort)
    } else if is_name(name, "c_int") {
        Some(Primitive::CInt)
    } else if is_name(name, "c_long") {
        Some(Primitive::CLong)
    } else if is_name(name, "c_longlong") {
        Some(Primitive::CLLong)
    } else {
        None
    }
}

impl NameResolveMap {
    /// The item that a type name resolves to.
    pub fn resolve_typename_default(&self, name: &Vec<String>) -> (r: Option<Ident>)
        ensures
            match r {
                Some(id) => resolve_typename(name@) == Some(id@),
                None => resolve_typename(name@).is_none(),
            },
    {
        if name.len() != 1 {
            return None;
        }
        let n = &name[0];
        if is_name(n, "i8") || is_name(n, "i16") || is_name(n, "i32") || is_name(n, "i64")
            || is_name(n, "c_char") || is_name(n, "c_short") || is_name(n, "c_int") || is_name(
            n,
            "c_long",
        ) || is_name(n, "c_longlong") {
            Some(Ident::UnmangledItem(n.clone()))
        } else {
            None
        }
    }
}

impl Type {
    /// Resolves a type as written.
    pub fn from_ast(ast: &ast::Type, names: &NameResolveMap) -> (r: Result<Type, LIRError>)
        ensures
            match lower_type(*ast) {
                Ok(v) => r matches Ok(t) && t@ == v,
                Err(k) => r matches Err(e) && e.ty == k,
            },
        decreases ast, 0nat,
    {
        match ast {
            ast::Type::Name(path) => {
                if path.len() == 1 {
                    match primitive_from_name(&path[0]) {
                        Some(p) => {
                            return Ok(Type::Primitive(p));
                        },
                        None => {},
                    }
                }
                match names.resolve_typename_default(path) {
                    Some(id) => Ok(Type::Name(id)),
                    None => Err(LIRError { ty: LIRErrorType::UnresolvedIdent }),
                }
            },
            ast::Type::PtrConst(t) => match Type::from_ast(&**t, names) {
                Ok(t) => Ok(Type::PtrConst(Box::new(t))),
                Err(e) => Err(e),
            },
            ast::Type::PtrMut(t) => match Type::from_ast(&**t, names) {
                Ok(t) => Ok(Type::PtrMut(Box::new(t))),
                Err(e) => Err(e),
            },
            ast::Type::PtrDynConst(t) => match Type::from_ast(&**t, names) {
                Ok(t) => Ok(Type::PtrDynConst(Box::new(t))),
                Err(e) => Err(e),
            },
            ast::Type::PtrDynMut(t) => match Type::from_ast(&**t, names) {
                Ok(t) => Ok(Type::PtrDynMut(Box::new(t))),
                Err(e) => Err(e),
            },
            ast::Type::Slice(t) => match Type::from_ast(&**t, names) {
                Ok(t) => Ok(Type::Slice(Box::new(t))),
                Err(e) => Err(e),
            },
            ast::Type::Arr(t, n) => match Type::from_ast(&**t, names) {
                Ok(t) => Ok(Type::Arr(Box::new(t), *n)),
                Err(e) => Err(e),
            },
            ast::Type::Tuple(ts) => match Type::all_from_ast(ts, names) {
                Ok(ts) => Ok(Type::Tuple(ts)),
                Err(e) => Err(e),
            },
        }
    }

    /// Resolves a list of types, in order.
    pub fn all_from_ast(asts: &Vec<ast::Type>, names: &NameResolveMap) -> (r: Result<
        Vec<Type>,
        LIRError,
    >)
        ensures
            match lower_types(asts@, asts@.len()) {
                Ok(vs) => r matches Ok(ts) && view_types(ts@) == vs,
                Err(k) => r matches Err(e) && e.ty == k,
            },
        decreases asts, 1nat,
    {
        let mut out: Vec<Type> = Vec::new();
        let mut i: usize = 0;
        assert(view_types(out@) =~= Seq::empty());
        while i < asts.len()
            invariant
                i <= asts.len(),
                lower_types(asts@, i as nat) == Ok::<Seq<TypeView>, LIRErrorType>(
                    view_types(out@),
                ),
            decreases asts.len() - i,
        {
            proof {
                assert(decreases_to!(asts => asts[i as int]));
            }
            match Type::from_ast(&asts[i], names) {
                Ok(t) => {
                    assert(view_types(out@.push(t)) =~= view_types(out@).push(t@));
                    out.push(t);
                },
                Err(e) => {
                    proof {
                        lemma_lower_types_fails(asts@, (i + 1) as nat, asts@.len());
                    }
                    return Err(e);
                },
            }
            i = i + 1;
        }
        Ok(out)
    }

    /// Resolves an optional type.
    pub fn opt_from_ast(ast: &Option<ast::Type>, names: &NameResolveMap) -> (r: Result<
        Option<Type>,
        LIRError,
    >)
        ensures
            match lower_opt_type(*ast) {
                Ok(v) => r matches Ok(t) && view_opt_type(t) == v,
                Err(k) => r matches Err(e) && e.ty == k,
            },
    {
        match ast {
            None => Ok(None),
            Some(t) => match Type::from_ast(t, names) {
                Ok(t) => Ok(Some(t)),
                Err(e) => Err(e),
            },
        }
    }
}

/// Once a prefix of a list of types fails to resolve, so does every longer
/// prefix, with the same error.
pub proof fn lemma_lower_types_fails(ts: Seq<ast::Type>, n: nat, m: nat)
    requires
        n <= m <= ts.len(),
        lower_types(ts, n).is_err(),
    ensures
        lower_types(ts, m) == lower_types(ts, n),
    decreases m,
{
    if n < m {
        lemma_lower_types_fails(ts, n, (m - 1) as nat);
    }
}

/// The type of the result of a binary operator.
pub fn op_result_type(op: Op) -> (p: Primitive)
    ensures
        p == op_result(op),
{
    match op {
        Op::Eq | Op::Gt | Op::Ge | Op::Lt | Op::Le => Primitive::Bool,
        _ => Primitive::I32,
    }
}

/// The type of an integer literal.
pub fn integer_type_for_value(value: u64) -> (t: Type)
    ensures
        t@ == literal_type(value),
{
    Type::Primitive(Primitive::I32)
}

/// The type of a string literal: a constant pointer to C characters.
pub fn c_string_type() -> (t: Type)
    ensures
        t@ == TypeView::PtrConst(Box::new(TypeView::Primitive(Primitive::CChar))),
{
    let inner = Type::Primitive(Primitive::CChar);
    assert(inner@ == TypeView::Primitive(Primitive::CChar));
    Type::PtrConst(Box::new(inner))
}

/// Whether a call with `n` arguments fits the signature.
pub fn check_arity(decl: &DeclFn, n: usize) -> (r: bool)
    ensures
        r == arity_ok(decl@, n as nat),
{
    if decl.varadic {
        n >= decl.params.len()
    } else {
        n == decl.params.len()
    }
}

impl Block {
    /// The type of the value that the block yields.
    pub fn tail_type(&self) -> (r: Option<Type>)
        ensures
            view_opt_type(r) == tail_type(self@),
    {
        match &self.tail {
            Some(e) => clone_opt_type(&e.ty),
            None => None,
        }
    }
}

impl LExpression {
    /// Lowers an expression that stands where a place is needed.
    pub fn from_ast(e: &ast::Expression, names: &NameResolveMap) -> (r: Result<
        LExpression,
        LIRError,
    >)
        ensures
            match lower_lexpr(*e, names@) {
                Ok(v) => r matches Ok(x) && x@ == v,
                Err(k) => r matches Err(err) && err.ty == k,
            },
    {
        match e {
            ast::Expression::LVar(path) => match names.resolve_var_default(path) {
                Some(decl) => Ok(
                    LExpression {
                        ty: decl.ty,
                        mutable: decl.mutable,
                        value: LExpressionValue::Var(decl.name),
                    },
                ),
                None => Err(LIRError { ty: LIRErrorType::UnresolvedIdent }),
            },
            _ => Err(LIRError { ty: LIRErrorType::InvalidLValueExpr }),
        }
    }
}

/// Once a prefix of the arguments of a call fails to lower, so does every
/// longer prefix, with the same error.
pub proof fn lemma_lower_args_fails(
    args: Seq<ast::Expression>,
    n: nat,
    m: nat,
    params: Seq<(Seq<char>, TypeView)>,
    st: LowerState,
)
    requires
        n <= m <= args.len(),
        lower_args(args, n, params, st).is_err(),
    ensures
        lower_args(args, m, params, st) == lower_args(args, n, params, st),
    decreases m,
{
    if n < m {
        lemma_lower_args_fails(args, n, (m - 1) as nat, params, st);
    }
}

/// Once a prefix of a list of statements fails to lower, so does every
/// longer prefix, with the same error.
pub proof fn lemma_lower_stmts_fails(ss: Seq<ast::Statement>, n: nat, m: nat, st: LowerState)
    requires
        n <= m <= ss.len(),
        lower_stmts(ss, n, st).is_err(),
    ensures
        lower_stmts(ss, m, st) == lower_stmts(ss, n, st),
    decreases m,
{
    if n < m {
        lemma_lower_stmts_fails(ss, n, (m - 1) as nat, st);
    }
}

impl Expression {
    /// The expression seen as one of type `target_type`, if it has that type
    /// or one that widens to it. Only the type attached to the expression
    /// changes.
    pub fn coerce(self, target_type: &Type) -> (r: Option<Expression>)
        ensures
            match coerce(self@, target_type@) {
                Some(v) => r matches Some(x) && x@ == v,
                None => r.is_none(),
            },
    {
        let fits = match &self.ty {
            Some(ty) => ty.same(target_type),
            None => false,
        };
        if fits {
            return Some(self);
        }
        let widens = match (&self.ty, target_type) {
            (Some(Type::Primitive(Primitive::I32)), Type::Primitive(Primitive::CInt)) => true,
            _ => false,
        };
        if widens {
            Some(Expression { ty: Some(Type::Primitive(Primitive::CInt)), value: self.value })
        } else {
            None
        }
    }

    /// Lowers an expression.
    pub fn from_ast(e: &ast::Expression, ctx: &mut Lowering) -> (r: Result<Expression, LIRError>)
        ensures
            match lower_expr(*e, old(ctx)@) {
                Ok((v, st)) => r matches Ok(x) && x@ == v && final(ctx)@ == st,
                Err((k, st)) => r matches Err(err) && err.ty == k && final(ctx)@ == st,
            },
        decreases e, 1nat,
    {
        match e {
            ast::Expression::Assign(lhs, op, rhs) => Expression::assign_from_ast(
                &**lhs,
                *op,
                &**rhs,
                ctx,
            ),
            ast::Expression::Op(op, lhs, rhs) => Expression::op_from_ast(*op, &**lhs, &**rhs, ctx),
            ast::Expression::Call(callee, args) => Expression::call_from_ast(&**callee, args, ctx),
            ast::Expression::Int(n) => Ok(
                Expression {
                    ty: Some(integer_type_for_value(*n)),
                    value: ExpressionValue::ConstInt(*n),
                },
            ),
            ast::Expression::Block(b) => match Block::from_ast(&**b, ctx) {
                Ok(block) => Ok(
                    Expression {
                        ty: block.tail_type(),
                        value: ExpressionValue::Block(Box::new(block)),
                    },
                ),
                Err(err) => Err(err),
            },
            ast::Expression::If(i) => match If::from_ast(i, ctx) {
                Ok(cond) => Ok(
                    Expression { ty: cond.1.tail_type(), value: ExpressionValue::If(cond) },
                ),
                Err(err) => Err(err),
            },
            ast::Expression::Loop(b) => Expression::loop_from_ast(&**b, ctx),
            ast::Expression::CStringRef(bytes) => {
                let index = ctx.intern(copy_bytes(bytes));
                Ok(Expression { ty: Some(c_string_type()), value: ExpressionValue::ConstStr(index) })
            },
            ast::Expression::LVar(_) => match LExpression::from_ast(e, &ctx.names) {
                Ok(place) => Ok(
                    Expression { ty: Some(place.ty.clone()), value: ExpressionValue::LExpr(place) },
                ),
                Err(err) => Err(err),
            },
        }
    }

    /// Lowers an assignment of `rhs` to `lhs`, plain or compound.
    pub fn assign_from_ast(
        lhs: &ast::Expression,
        op: Option<Op>,
        rhs: &ast::Expression,
        ctx: &mut Lowering,
    ) -> (r: Result<Expression, LIRError>)
        ensures
            match lower_expr(
                ast::Expression::Assign(Box::new(*lhs), op, Box::new(*rhs)),
                old(ctx)@,
            ) {
                Ok((v, st)) => r matches Ok(x) && x@ == v && final(ctx)@ == st,
                Err((k, st)) => r matches Err(err) && err.ty == k && final(ctx)@ == st,
            },
        decreases ast::Expression::Assign(Box::new(*lhs), op, Box::new(*rhs)), 0nat,
    {
        let target = match LExpression::from_ast(lhs, &ctx.names) {
            Ok(t) => t,
            Err(err) => {
                return Err(err);
            },
        };
        if !target.mutable {
            return Err(LIRError { ty: LIRErrorType::ImmutAssign });
        }
        let value = match Expression::from_ast(rhs, ctx) {
            Ok(v) => v,
            Err(err) => {
                return Err(err);
            },
        };
        match value.coerce(&target.ty) {
            Some(value) => Ok(
                Expression {
                    ty: Some(target.ty.clone()),
                    value: ExpressionValue::Assign(op, target, Box::new(value)),
                },
            ),
            None => Err(LIRError { ty: LIRErrorType::MismatchedTypes }),
        }
    }

    /// Lowers the application of a binary operator.
    pub fn op_from_ast(
        op: Op,
        lhs: &ast::Expression,
        rhs: &ast::Expression,
        ctx: &mut Lowering,
    ) -> (r: Result<Expression, LIRError>)
        ensures
            match lower_expr(ast::Expression::Op(op, Box::new(*lhs), Box::new(*rhs)), old(ctx)@) {
                Ok((v, st)) => r matches Ok(x) && x@ == v && final(ctx)@ == st,
                Err((k, st)) => r matches Err(err) && err.ty == k && final(ctx)@ == st,
            },
        decreases ast::Expression::Op(op, Box::new(*lhs), Box::new(*rhs)), 0nat,
    {
        let l = match Expression::from_ast(lhs, ctx) {
            Ok(v) => v,
            Err(err) => {
                return Err(err);
            },
        };
        let r = match Expression::from_ast(rhs, ctx) {
            Ok(v) => v,
            Err(err) => {
                return Err(err);
            },
        };
        Ok(
            Expression {
                ty: Some(Type::Primitive(op_result_type(op))),
                value: ExpressionValue::Op(op, Box::new(l), Box::new(r)),
            },
        )
    }

    /// Lowers a call. The callee has to be the bare name of a function.
    pub fn call_from_ast(
        callee: &ast::Expression,
        args: &Vec<ast::Expression>,
        ctx: &mut Lowering,
    ) -> (r: Result<Expression, LIRError>)
        ensures
            match lower_expr(ast::Expression::Call(Box::new(*callee), *args), old(ctx)@) {
                Ok((v, st)) => r matches Ok(x) && x@ == v && final(ctx)@ == st,
                Err((k, st)) => r matches Err(err) && err.ty == k && final(ctx)@ == st,
            },
        decreases ast::Expression::Call(Box::new(*callee), *args), 0nat,
    {
        match callee {
            ast::Expression::LVar(path) => {
                let decl = match ctx.names.resolve_fn_default(path) {
                    Some(d) => d.clone(),
                    None => {
                        return Err(LIRError { ty: LIRErrorType::UnresolvedIdent });
                    },
                };
                if !check_arity(&decl, args.len()) {
                    return Err(LIRError { ty: LIRErrorType::ArgCountMismatch });
                }
                match Expression::args_from_ast(args, &decl.params, ctx) {
                    Ok(values) => Ok(
                        Expression {
                            ty: decl.returns,
                            value: ExpressionValue::CallConcrete(decl.id, values),
                        },
                    ),
                    Err(err) => Err(err),
                }
            },
            _ => Err(LIRError { ty: LIRErrorType::UnresolvedIdent }),
        }
    }

    /// Lowers a loop. Its type is what its `break`s carry. The loop is left
    /// again before the call returns, also where the body is in error.
    pub fn loop_from_ast(body: &ast::Block, ctx: &mut Lowering) -> (r: Result<
        Expression,
        LIRError,
    >)
        ensures
            match lower_expr(ast::Expression::Loop(Box::new(*body)), old(ctx)@) {
                Ok((v, st)) => r matches Ok(x) && x@ == v && final(ctx)@ == st,
                Err((k, st)) => r matches Err(err) && err.ty == k && final(ctx)@ == st,
            },
        decreases ast::Expression::Loop(Box::new(*body)), 0nat,
    {
        ctx.enter_loop();
        match Block::from_ast(body, ctx) {
            Ok(block) => {
                let ty = ctx.leave_loop();
                Ok(Expression { ty, value: ExpressionValue::Loop(Box::new(block)) })
            },
            Err(err) => {
                let _ = ctx.leave_loop();
                Err(err)
            },
        }
    }

    /// Lowers an optional expression.
    pub fn opt_from_ast(e: &Option<ast::Expression>, ctx: &mut Lowering) -> (r: Result<
        Option<Expression>,
        LIRError,
    >)
        ensures
            match lower_opt_expr(*e, old(ctx)@) {
                Ok((v, st)) => r matches Ok(x) && view_opt_expr(x) == v && final(ctx)@ == st,
                Err((k, st)) => r matches Err(err) && err.ty == k && final(ctx)@ == st,
            },
        decreases e, 0nat,
    {
        match e {
            None => Ok(None),
            Some(e) => match Expression::from_ast(e, ctx) {
                Ok(v) => Ok(Some(v)),
                Err(err) => Err(err),
            },
        }
    }

    /// Lowers the arguments of a call to a function with the given
    /// parameters, in order.
    pub fn args_from_ast(
        args: &Vec<ast::Expression>,
        params: &Vec<(String, Type)>,
        ctx: &mut Lowering,
    ) -> (r: Result<Vec<Expression>, LIRError>)
        ensures
            match lower_args(args@, args@.len(), view_params(params@), old(ctx)@) {
                Ok((v, st)) => r matches Ok(x) && view_exprs(x@) == v && final(ctx)@ == st,
                Err((k, st)) => r matches Err(err) && err.ty == k && final(ctx)@ == st,
            },
        decreases args, 1nat,
    {
        let ghost st0 = ctx@;
        let ghost ps = view_params(params@);
        let mut out: Vec<Expression> = Vec::new();
        let mut i: usize = 0;
        assert(view_exprs(out@) =~= Seq::empty());
        while i < args.len()
            invariant
                i <= args.len(),
                st0 == old(ctx)@,
                ps == view_params(params@),
                lower_args(args@, i as nat, ps, st0) == Ok::<
                    (Seq<crate::lir::ExprView>, LowerState),
                    (LIRErrorType, LowerState),
                >((view_exprs(out@), ctx@)),
            decreases args.len() - i,
        {
            proof {
                assert(decreases_to!(args => args[i as int]));
            }
            let value = match Expression::from_ast(&args[i], ctx) {
                Ok(v) => v,
                Err(err) => {
                    proof {
                        lemma_lower_args_fails(args@, (i + 1) as nat, args@.len(), ps, st0);
                    }
                    return Err(err);
                },
            };
            let value = if i < params.len() {
                match value.coerce(&params[i].1) {
                    Some(v) => v,
                    None => {
                        proof {
                            lemma_lower_args_fails(args@, (i + 1) as nat, args@.len(), ps, st0);
                        }
                        return Err(LIRError { ty: LIRErrorType::MismatchedTypes });
                    },
                }
            } else {
                value
            };
            assert(view_exprs(out@.push(value)) =~= view_exprs(out@).push(value@));
            out.push(value);
            i = i + 1;
        }
        Ok(out)
    }
}

impl Expression {
    /// The initialiser of a declaration seen as one of the declared type,
    /// where a type is declared.
    pub fn ascribe(self, expected: &Option<ast::Type>, names: &NameResolveMap) -> (r: Result<
        Expression,
        LIRError,
    >)
        ensures
            match ascribe(self@, *expected) {
                Ok(v) => r matches Ok(x) && x@ == v,
                Err(k) => r matches Err(err) && err.ty == k,
            },
    {
        match expected {
            None => Ok(self),
            Some(t) => {
                let ty = match Type::from_ast(t, names) {
                    Ok(ty) => ty,
                    Err(err) => {
                        return Err(err);
                    },
                };
                match self.coerce(&ty) {
                    Some(v) => Ok(v),
                    None => Err(LIRError { ty: LIRErrorType::MismatchedTypes }),
                }
            },
        }
    }
}

/// The declaration statement with the given parts.
pub open spec fn decl_statement(
    name: String,
    mutable: bool,
    expected_type: Option<ast::Type>,
    value: ast::Expression,
) -> ast::Statement {
    ast::Statement::Decl { name, mutable, expected_type, value }
}

impl Statement {
    /// Lowers a statement.
    pub fn from_ast(s: &ast::Statement, ctx: &mut Lowering) -> (r: Result<Statement, LIRError>)
        ensures
            match lower_stmt(*s, old(ctx)@) {
                Ok((v, st)) => r matches Ok(x) && x@ == v && final(ctx)@ == st,
                Err((k, st)) => r matches Err(err) && err.ty == k && final(ctx)@ == st,
            },
        decreases s, 1nat,
    {
        match s {
            ast::Statement::Expression(e) => Statement::eval_from_ast(e, ctx),
            ast::Statement::Break(e) => Statement::break_from_ast(e, ctx),
            ast::Statement::Return(e) => Statement::return_from_ast(e, ctx),
            ast::Statement::Decl { name, mutable, expected_type, value } => {
                assert(*s == decl_statement(*name, *mutable, *expected_type, *value));
                Statement::decl_from_ast(name, *mutable, expected_type, value, ctx)
            },
        }
    }

    /// Lowers an expression that stands as a statement.
    pub fn eval_from_ast(e: &ast::Expression, ctx: &mut Lowering) -> (r: Result<
        Statement,
        LIRError,
    >)
        ensures
            match lower_stmt(ast::Statement::Expression(*e), old(ctx)@) {
                Ok((v, st)) => r matches Ok(x) && x@ == v && final(ctx)@ == st,
                Err((k, st)) => r matches Err(err) && err.ty == k && final(ctx)@ == st,
            },
        decreases ast::Statement::Expression(*e), 0nat,
    {
        match Expression::from_ast(e, ctx) {
            Ok(v) => Ok(Statement::Eval(v)),
            Err(err) => Err(err),
        }
    }

    /// Lowers a `return`.
    pub fn return_from_ast(e: &Option<ast::Expression>, ctx: &mut Lowering) -> (r: Result<
        Statement,
        LIRError,
    >)
        ensures
            match lower_stmt(ast::Statement::Return(*e), old(ctx)@) {
                Ok((v, st)) => r matches Ok(x) && x@ == v && final(ctx)@ == st,
                Err((k, st)) => r matches Err(err) && err.ty == k && final(ctx)@ == st,
            },
        decreases ast::Statement::Return(*e), 0nat,
    {
        match Expression::opt_from_ast(e, ctx) {
            Ok(v) => Ok(Statement::Return(v)),
            Err(err) => Err(err),
        }
    }

    /// Lowers a `break`, which has to stand in a loop and to agree with the
    /// earlier `break`s of that loop on the type of what it carries.
    pub fn break_from_ast(e: &Option<ast::Expression>, ctx: &mut Lowering) -> (r: Result<
        Statement,
        LIRError,
    >)
        ensures
            match lower_stmt(ast::Statement::Break(*e), old(ctx)@) {
                Ok((v, st)) => r matches Ok(x) && x@ == v && final(ctx)@ == st,
                Err((k, st)) => r matches Err(err) && err.ty == k && final(ctx)@ == st,
            },
        decreases ast::Statement::Break(*e), 0nat,
    {
        let value = match Expression::opt_from_ast(e, ctx) {
            Ok(v) => v,
            Err(err) => {
                return Err(err);
            },
        };
        let ty = match &value {
            Some(v) => clone_opt_type(&v.ty),
            None => None,
        };
        match ctx.note_break(ty) {
            Ok(()) => Ok(Statement::Break(value)),
            Err(err) => Err(err),
        }
    }

    /// Lowers the declaration of a local. The local is visible from the
    /// next statement on.
    pub fn decl_from_ast(
        name: &String,
        mutable: bool,
        expected_type: &Option<ast::Type>,
        value: &ast::Expression,
        ctx: &mut Lowering,
    ) -> (r: Result<Statement, LIRError>)
        ensures
            match lower_stmt(decl_statement(*name, mutable, *expected_type, *value), old(ctx)@) {
                Ok((v, st)) => r matches Ok(x) && x@ == v && final(ctx)@ == st,
                Err((k, st)) => r matches Err(err) && err.ty == k && final(ctx)@ == st,
            },
        decreases decl_statement(*name, mutable, *expected_type, *value), 0nat,
    {
        let value = match Expression::from_ast(value, ctx) {
            Ok(v) => v,
            Err(err) => {
                return Err(err);
            },
        };
        let value = match value.ascribe(expected_type, &ctx.names) {
            Ok(v) => v,
            Err(err) => {
                return Err(err);
            },
        };
        let ty = match &value.ty {
            Some(ty) => ty.clone(),
            None => {
                return Err(LIRError { ty: LIRErrorType::VoidValue });
            },
        };
        let decl = Decl { name: Ident::Local(name.clone()), mutable, ty };
        ctx.declare(name.clone(), decl);
        Ok(Statement::Decl(name.clone(), value))
    }
}

impl Block {
    /// Lowers a block in a scope of its own. The scope is closed again
    /// before the call returns, whether the block is lowered or found in
    /// error.
    pub fn from_ast(b: &ast::Block, ctx: &mut Lowering) -> (r: Result<Block, LIRError>)
        ensures
            match lower_block(*b, old(ctx)@) {
                Ok((v, st)) => r matches Ok(x) && x@ == v && final(ctx)@ == st,
                Err((k, st)) => r matches Err(err) && err.ty == k && final(ctx)@ == st,
            },
        decreases b, 0nat,
    {
        ctx.push_scope();
        let ghost st0 = ctx@;
        let mut statements: Vec<Statement> = Vec::new();
        let mut i: usize = 0;
        assert(view_stmts(statements@) =~= Seq::empty());
        while i < b.statements.len()
            invariant
                decreases_to!(b => b.statements),
                st0 == old(ctx)@.push_scope(),
                i <= b.statements.len(),
                lower_stmts(b.statements@, i as nat, st0) == Ok::<
                    (Seq<crate::lir::StmtView>, LowerState),
                    (LIRErrorType, LowerState),
                >((view_stmts(statements@), ctx@)),
            decreases b.statements.len() - i,
        {
            proof {
                assert(decreases_to!(b.statements => b.statements[i as int]));
            }
            match Statement::from_ast(&b.statements[i], ctx) {
                Ok(s) => {
                    assert(view_stmts(statements@.push(s)) =~= view_stmts(statements@).push(s@));
                    statements.push(s);
                },
                Err(err) => {
                    proof {
                        lemma_lower_stmts_fails(
                            b.statements@,
                            (i + 1) as nat,
                            b.statements@.len(),
                            st0,
                        );
                    }
                    ctx.pop_scope();
                    return Err(err);
                },
            }
            i = i + 1;
        }
        let tail = match Expression::opt_from_ast(&b.tail, ctx) {
            Ok(t) => t,
            Err(err) => {
                ctx.pop_scope();
                return Err(err);
            },
        };
        ctx.pop_scope();
        Ok(Block { statements, tail })
    }
}

impl If {
    /// Lowers what follows an `else`.
    pub fn else_from_ast(e: &Option<ast::Else>, ctx: &mut Lowering) -> (r: Result<
        Option<Box<Block>>,
        LIRError,
    >)
        ensures
            match lower_else(*e, old(ctx)@) {
                Ok((v, st)) => r matches Ok(x) && view_opt_block(x) == v && final(ctx)@ == st,
                Err((k, st)) => r matches Err(err) && err.ty == k && final(ctx)@ == st,
            },
        decreases e, 0nat,
    {
        match e {
            None => Ok(None),
            Some(ast::Else::If(i)) => match If::from_ast(&**i, ctx) {
                Ok(nested) => {
                    let block = Block {
                        statements: Vec::new(),
                        tail: Some(
                            Expression {
                                ty: nested.1.tail_type(),
                                value: ExpressionValue::If(nested),
                            },
                        ),
                    };
                    assert(view_stmts(block.statements@) =~= Seq::empty());
                    Ok(Some(Box::new(block)))
                },
                Err(err) => Err(err),
            },
            Some(ast::Else::Block(b)) => match Block::from_ast(&**b, ctx) {
                Ok(block) => Ok(Some(Box::new(block))),
                Err(err) => Err(err),
            },
        }
    }

    /// Lowers a conditional.
    pub fn from_ast(i: &ast::If, ctx: &mut Lowering) -> (r: Result<If, LIRError>)
        ensures
            match lower_if(*i, old(ctx)@) {
                Ok((v, st)) => r matches Ok(x) && x@ == v && final(ctx)@ == st,
                Err((k, st)) => r matches Err(err) && err.ty == k && final(ctx)@ == st,
            },
        decreases i, 0nat,
    {
        let cond = match Expression::from_ast(&*i.0, ctx) {
            Ok(c) => c,
            Err(err) => {
                return Err(err);
            },
        };
        let cond = match cond.coerce(&Type::Primitive(Primitive::Bool)) {
            Some(c) => c,
            None => {
                return Err(LIRError { ty: LIRErrorType::IllegalConditionExpr });
            },
        };
        let then_block = match Block::from_ast(&*i.1, ctx) {
            Ok(b) => b,
            Err(err) => {
                return Err(err);
            },
        };
        let else_block = match If::else_from_ast(&i.2, ctx) {
            Ok(b) => b,
            Err(err) => {
                return Err(err);
            },
        };
        let else_type = match &else_block {
            Some(b) => b.tail_type(),
            None => None,
        };
        if same_opt_type(&then_block.tail_type(), &else_type) {
            Ok(If(Box::new(cond), Box::new(then_block), else_block))
        } else {
            Err(LIRError { ty: LIRErrorType::MismatchedTypes })
        }
    }
}

} // verus!
