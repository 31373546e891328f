//! The syntax tree that the parser produces and lowering consumes.

use vstd::prelude::*;
use crate::types::Op;

verus! {

/// A name, possibly qualified: one segment per path component.
pub type NSIdent = Vec<Ident>;

/// A single name.
pub type Ident = String;

/// A declaration or definition at the top level of a file.
#[derive(Debug)]
pub enum TopLevelDecl {
    FnExtern(FnExtern),
    Def(TopLevelDef),
    Decl(Decl),
}

/// An import.
#[derive(Debug)]
pub struct Use {
    pub external: bool,
    pub ty: Option<Vec<u8>>,
    pub path: Vec<u8>,
}

/// A top-level declaration that defines nothing.
#[derive(Debug)]
pub enum Decl {
    Use(Use),
}

/// A top-level definition.
#[derive(Debug)]
pub enum TopLevelDef {
    Entry(Entry),
    Def(Def),
}

/// A named definition.
#[derive(Debug)]
pub enum Def {
    Fn(FnDef),
}

/// The declaration of a function that is defined elsewhere.
#[derive(Debug)]
pub struct FnExtern {
    pub name: Ident,
    pub params: Vec<(Option<Ident>, Type)>,
    pub varadic: bool,
    pub returns: Option<Type>,
}

/// A function definition.
#[derive(Debug)]
pub struct FnDef {
    pub name: Ident,
    pub params: Vec<(Ident, Type)>,
    pub returns: Option<Type>,
    pub body: Block,
}

/// The program entry point.
#[derive(Debug)]
pub struct Entry {
    pub returns: Option<Type>,
    pub body: Block,
}

/// A braced sequence of statements with an optional value at its end.
#[derive(Debug)]
pub struct Block {
    pub statements: Vec<Statement>,
    pub tail: Option<Expression>,
}

#[derive(Debug)]
pub enum Statement {
    Decl { name: Ident, mutable: bool, expected_type: Option<Type>, value: Expression },
    Expression(Expression),
    Break(Option<Expression>),
    Return(Option<Expression>),
}

/// What follows the `else` of a conditional.
#[derive(Debug)]
pub enum Else {
    /// `else if ...`
    If(Box<If>),
    /// `else { ... }`
    Block(Box<Block>),
}

/// A conditional: condition, the block taken when it holds, and the rest.
#[derive(Debug)]
pub struct If(pub Box<Expression>, pub Box<Block>, pub Option<Else>);

#[derive(Debug)]
pub enum Expression {
    If(If),
    Loop(Box<Block>),
    Block(Box<Block>),
    Assign(Box<Expression>, Option<Op>, Box<Expression>),
    Op(Op, Box<Expression>, Box<Expression>),
    Call(Box<Expression>, Vec<Expression>),
    LVar(NSIdent),
    Int(u64),
    CStringRef(Vec<u8>),
}

/// A type as written in the source.
#[derive(Debug)]
pub enum Type {
    Name(NSIdent),
    PtrConst(Box<Type>),
    PtrMut(Box<Type>),
    PtrDynConst(Box<Type>),
    PtrDynMut(Box<Type>),
    Slice(Box<Type>),
    Arr(Box<Type>, u64),
    Tuple(Vec<Type>),
}

/// Mathematical model of a possibly qualified name.
pub open spec fn view_path(path: Seq<String>) -> Seq<Seq<char>> {
    Seq::new(path.len(), |i: int| path[i]@)
}

/// Mathematical model of a [`Type`].
pub enum TypeSyn {
    Name(Seq<Seq<char>>),
    PtrConst(Box<TypeSyn>),
    PtrMut(Box<TypeSyn>),
    PtrDynConst(Box<TypeSyn>),
    PtrDynMut(Box<TypeSyn>),
    Slice(Box<TypeSyn>),
    Arr(Box<TypeSyn>, u64),
    Tuple(Seq<TypeSyn>),
}

/// Mathematical model of an [`Expression`].
pub enum ExprSyn {
    If(IfSyn),
    Loop(Box<BlockSyn>),
    Block(Box<BlockSyn>),
    Assign(Box<ExprSyn>, Option<Op>, Box<ExprSyn>),
    Op(Op, Box<ExprSyn>, Box<ExprSyn>),
    Call(Box<ExprSyn>, Seq<ExprSyn>),
    LVar(Seq<Seq<char>>),
    Int(u64),
    CStringRef(Seq<u8>),
}

/// Mathematical model of an [`If`].
pub struct IfSyn {
    pub cond: Box<ExprSyn>,
    pub then_block: Box<BlockSyn>,
    pub rest: Option<ElseSyn>,
}

/// Mathematical model of an [`Else`].
pub enum ElseSyn {
    If(Box<IfSyn>),
    Block(Box<BlockSyn>),
}

/// Mathematical model of a [`Block`].
pub struct BlockSyn {
    pub statements: Seq<StmtSyn>,
    pub tail: Option<ExprSyn>,
}

/// Mathematical model of a [`Statement`].
pub enum StmtSyn {
    Decl { name: Seq<char>, mutable: bool, expected_type: Option<TypeSyn>, value: ExprSyn },
    Expression(ExprSyn),
    Break(Option<ExprSyn>),
    Return(Option<ExprSyn>),
}

/// Mathematical model of a [`FnExtern`].
pub struct FnExternSyn {
    pub name: Seq<char>,
    pub params: Seq<(Option<Seq<char>>, TypeSyn)>,
    pub varadic: bool,
    pub returns: Option<TypeSyn>,
}

/// Mathematical model of a [`FnDef`].
pub struct FnDefSyn {
    pub name: Seq<char>,
    pub params: Seq<(Seq<char>, TypeSyn)>,
    pub returns: Option<TypeSyn>,
    pub body: BlockSyn,
}

/// Mathematical model of an [`Entry`].
pub struct EntrySyn {
    pub returns: Option<TypeSyn>,
    pub body: BlockSyn,
}

/// Mathematical model of a [`Use`].
pub struct UseSyn {
    pub external: bool,
    pub ty: Option<Seq<u8>>,
    pub path: Seq<u8>,
}

/// Mathematical model of a [`TopLevelDecl`].
pub enum TopSyn {
    FnExtern(FnExternSyn),
    Entry(EntrySyn),
    Fn(FnDefSyn),
    Use(UseSyn),
}

/// The model of a type.
pub open spec fn syn_type(t: Type) -> TypeSyn
    decreases t,
{
    match t {
        Type::Name(path) => TypeSyn::Name(view_path(path@)),
        Type::PtrConst(t) => TypeSyn::PtrConst(Box::new(syn_type(*t))),
        Type::PtrMut(t) => TypeSyn::PtrMut(Box::new(syn_type(*t))),
        Type::PtrDynConst(t) => TypeSyn::PtrDynConst(Box::new(syn_type(*t))),
        Type::PtrDynMut(t) => TypeSyn::PtrDynMut(Box::new(syn_type(*t))),
        Type::Slice(t) => TypeSyn::Slice(Box::new(syn_type(*t))),
        Type::Arr(t, n) => TypeSyn::Arr(Box::new(syn_type(*t)), n),
        Type::Tuple(ts) => TypeSyn::Tuple(syn_types(ts@)),
    }
}

/// The models of a sequence of types, element by element.
pub open spec fn syn_types(ts: Seq<Type>) -> Seq<TypeSyn>
    decreases ts,
{
    Seq::new(
        ts.len(),
        |i: int|
            if 0 <= i < ts.len() {
                syn_type(ts[i])
            } else {
                arbitrary()
            },
    )
}

/// A copy of a possibly qualified name.
pub fn clone_path(path: &Vec<String>) -> (r: Vec<String>)
    ensures
        view_path(r@) == view_path(path@),
{
    let mut out: Vec<String> = Vec::new();
    let mut i: usize = 0;
    while i < path.len()
        invariant
            i <= path.len(),
            out@.len() == i,
            forall|j: int| 0 <= j < i ==> out@[j]@ == path@[j]@,
        decreases path.len() - i,
    {
        out.push(path[i].clone());
        i = i + 1;
    }
    assert(view_path(out@) =~= view_path(path@));
    out
}

impl Clone for Type {
    fn clone(&self) -> (r: Type)
        ensures
            syn_type(r) == syn_type(*self),
        decreases self,
    {
        match self {
            Type::Name(path) => Type::Name(clone_path(path)),
            Type::PtrConst(t) => Type::PtrConst(Box::new((**t).clone())),
            Type::PtrMut(t) => Type::PtrMut(Box::new((**t).clone())),
            Type::PtrDynConst(t) => Type::PtrDynConst(Box::new((**t).clone())),
            Type::PtrDynMut(t) => Type::PtrDynMut(Box::new((**t).clone())),
            Type::Slice(t) => Type::Slice(Box::new((**t).clone())),
            Type::Arr(t, n) => Type::Arr(Box::new((**t).clone()), *n),
            Type::Tuple(ts) => {
                let mut out: Vec<Type> = Vec::new();
                let mut i: usize = 0;
                while i < ts.len()
                    invariant
                        decreases_to!(self => ts),
                        i <= ts.len(),
                        out@.len() == i,
                        forall|j: int| 0 <= j < i ==> syn_type(out@[j]) == syn_type(ts@[j]),
                    decreases ts.len() - i,
                {
                    proof {
                        assert(decreases_to!(ts => ts[i as int]));
                    }
                    let c = ts[i].clone();
                    out.push(c);
                    i = i + 1;
                }
                assert(syn_types(out@) =~= syn_types(ts@));
                Type::Tuple(out)
            },
        }
    }
}

/// The model of an optional type.
pub open spec fn syn_opt_type(t: Option<Type>) -> Option<TypeSyn> {
    match t {
        Some(t) => Some(syn_type(t)),
        None => None,
    }
}

/// The model of an expression.
pub open spec fn syn_expr(e: Expression) -> ExprSyn
    decreases e,
{
    match e {
        Expression::If(i) => ExprSyn::If(syn_if(i)),
        Expression::Loop(b) => ExprSyn::Loop(Box::new(syn_block(*b))),
        Expression::Block(b) => ExprSyn::Block(Box::new(syn_block(*b))),
        Expression::Assign(l, op, r) => ExprSyn::Assign(
            Box::new(syn_expr(*l)),
            op,
            Box::new(syn_expr(*r)),
        ),
        Expression::Op(op, l, r) => ExprSyn::Op(op, Box::new(syn_expr(*l)), Box::new(syn_expr(*r))),
        Expression::Call(f, args) => ExprSyn::Call(Box::new(syn_expr(*f)), syn_exprs(args@)),
        Expression::LVar(path) => ExprSyn::LVar(view_path(path@)),
        Expression::Int(n) => ExprSyn::Int(n),
        Expression::CStringRef(bytes) => ExprSyn::CStringRef(bytes@),
    }
}

/// The models of a sequence of expressions, element by element.
pub open spec fn syn_exprs(es: Seq<Expression>) -> Seq<ExprSyn>
    decreases es,
{
    Seq::new(
        es.len(),
        |i: int|
            if 0 <= i < es.len() {
                syn_expr(es[i])
            } else {
                arbitrary()
            },
    )
}

/// The model of an optional expression.
pub open spec fn syn_opt_expr(e: Option<Expression>) -> Option<ExprSyn>
    decreases e,
{
    match e {
        Some(e) => Some(syn_expr(e)),
        None => None,
    }
}

/// The model of a conditional.
pub open spec fn syn_if(i: If) -> IfSyn
    decreases i,
{
    IfSyn {
        cond: Box::new(syn_expr(*i.0)),
        then_block: Box::new(syn_block(*i.1)),
        rest: match i.2 {
            None => None,
            Some(Else::If(n)) => Some(ElseSyn::If(Box::new(syn_if(*n)))),
            Some(Else::Block(b)) => Some(ElseSyn::Block(Box::new(syn_block(*b)))),
        },
    }
}

/// The model of a block.
pub open spec fn syn_block(b: Block) -> BlockSyn
    decreases b,
{
    BlockSyn { statements: syn_stmts(b.statements@), tail: syn_opt_expr(b.tail) }
}

/// The models of a sequence of statements, element by element.
pub open spec fn syn_stmts(ss: Seq<Statement>) -> Seq<StmtSyn>
    decreases ss,
{
    Seq::new(
        ss.len(),
        |i: int|
            if 0 <= i < ss.len() {
                syn_stmt(ss[i])
            } else {
                arbitrary()
            },
    )
}

/// The model of a statement.
pub open spec fn syn_stmt(s: Statement) -> StmtSyn
    decreases s,
{
    match s {
        Statement::Decl { name, mutable, expected_type, value } => StmtSyn::Decl {
            name: name@,
            mutable,
            expected_type: syn_opt_type(expected_type),
            value: syn_expr(value),
        },
        Statement::Expression(e) => StmtSyn::Expression(syn_expr(e)),
        Statement::Break(e) => StmtSyn::Break(syn_opt_expr(e)),
        Statement::Return(e) => StmtSyn::Return(syn_opt_expr(e)),
    }
}

/// The models of the parameters of a declared function.
pub open spec fn syn_extern_params(ps: Seq<(Option<String>, Type)>) -> Seq<
    (Option<Seq<char>>, TypeSyn),
> {
    Seq::new(
        ps.len(),
        |i: int|
            (
                match ps[i].0 {
                    Some(name) => Some(name@),
                    None => None,
                },
                syn_type(ps[i].1),
            ),
    )
}

/// The models of the parameters of a defined function.
pub open spec fn syn_params(ps: Seq<(String, Type)>) -> Seq<(Seq<char>, TypeSyn)> {
    Seq::new(ps.len(), |i: int| (ps[i].0@, syn_type(ps[i].1)))
}

impl View for FnExtern {
    type V = FnExternSyn;

    open spec fn view(&self) -> FnExternSyn {
        FnExternSyn {
            name: self.name@,
            params: syn_extern_params(self.params@),
            varadic: self.varadic,
            returns: syn_opt_type(self.returns),
        }
    }
}

impl View for Entry {
    type V = EntrySyn;

    open spec fn view(&self) -> EntrySyn {
        EntrySyn { returns: syn_opt_type(self.returns), body: syn_block(self.body) }
    }
}

impl View for FnDef {
    type V = FnDefSyn;

    open spec fn view(&self) -> FnDefSyn {
        FnDefSyn {
            name: self.name@,
            params: syn_params(self.params@),
            returns: syn_opt_type(self.returns),
            body: syn_block(self.body),
        }
    }
}

impl View for Use {
    type V = UseSyn;

    open spec fn view(&self) -> UseSyn {
        UseSyn {
            external: self.external,
            ty: match self.ty {
                Some(t) => Some(t@),
                None => None,
            },
            path: self.path@,
        }
    }
}

impl View for TopLevelDecl {
    type V = TopSyn;

    open spec fn view(&self) -> TopSyn {
        match self {
            TopLevelDecl::FnExtern(f) => TopSyn::FnExtern(f@),
            TopLevelDecl::Def(TopLevelDef::Entry(e)) => TopSyn::Entry(e@),
            TopLevelDecl::Def(TopLevelDef::Def(Def::Fn(f))) => TopSyn::Fn(f@),
            TopLevelDecl::Decl(Decl::Use(u)) => TopSyn::Use(u@),
        }
    }
}

/// The models of a list of top-level declarations, element by element.
pub open spec fn syn_file(ds: Seq<TopLevelDecl>) -> Seq<TopSyn> {
    Seq::new(ds.len(), |i: int| ds[i]@)
}

} // verus!
