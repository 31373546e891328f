//! The lowered representation: resolved names, checked types and inserted
//! coercions, still shaped like the source.

use vstd::prelude::*;
use crate::types::{Ident, IdentView, Op, Type, TypeView, view_type};

verus! {

/// Storage declared by a `let` or a parameter.
#[derive(Debug, PartialEq, Eq)]
pub struct Decl {
    pub name: Ident,
    pub mutable: bool,
    pub ty: Type,
}

/// Mathematical model of a [`Decl`].
pub struct DeclView {
    pub name: IdentView,
    pub mutable: bool,
    pub ty: TypeView,
}

impl View for Decl {
    type V = DeclView;

    open spec fn view(&self) -> DeclView {
        DeclView { name: self.name@, mutable: self.mutable, ty: self.ty@ }
    }
}

impl Clone for Decl {
    fn clone(&self) -> (r: Decl)
        ensures
            r@ == self@,
    {
        Decl { name: self.name.clone(), mutable: self.mutable, ty: self.ty.clone() }
    }
}

/// The model of an optional type.
pub open spec fn view_opt_type(t: Option<Type>) -> Option<TypeView> {
    match t {
        Some(t) => Some(view_type(t)),
        None => None,
    }
}

/// The models of a parameter list, parameter by parameter.
pub open spec fn view_params(ps: Seq<(String, Type)>) -> Seq<(Seq<char>, TypeView)> {
    Seq::new(ps.len(), |i: int| (ps[i].0@, view_type(ps[i].1)))
}

/// The signature of a function.
#[derive(Debug, PartialEq, Eq)]
pub struct DeclFn {
    pub id: Ident,
    pub params: Vec<(String, Type)>,
    pub varadic: bool,
    /// `None` for a function that returns nothing.
    pub returns: Option<Type>,
}

/// Mathematical model of a [`DeclFn`].
pub struct DeclFnView {
    pub id: IdentView,
    pub params: Seq<(Seq<char>, TypeView)>,
    pub varadic: bool,
    pub returns: Option<TypeView>,
}

impl View for DeclFn {
    type V = DeclFnView;

    open spec fn view(&self) -> DeclFnView {
        DeclFnView {
            id: self.id@,
            params: view_params(self.params@),
            varadic: self.varadic,
            returns: view_opt_type(self.returns),
        }
    }
}

/// A copy of an optional type.
pub fn clone_opt_type(t: &Option<Type>) -> (r: Option<Type>)
    ensures
        view_opt_type(r) == view_opt_type(*t),
{
    match t {
        Some(t) => Some(t.clone()),
        None => None,
    }
}

impl Clone for DeclFn {
    fn clone(&self) -> (r: DeclFn)
        ensures
            r@ == self@,
    {
        let mut params: Vec<(String, Type)> = Vec::new();
        let mut i: usize = 0;
        while i < self.params.len()
            invariant
                i <= self.params.len(),
                params@.len() == i,
                forall|j: int|
                    0 <= j < i ==> params@[j].0@ == self.params@[j].0@ && view_type(params@[j].1)
                        == view_type(self.params@[j].1),
            decreases self.params.len() - i,
        {
            let p = (self.params[i].0.clone(), self.params[i].1.clone());
            params.push(p);
            i = i + 1;
        }
        assert(view_params(params@) =~= view_params(self.params@));
        DeclFn {
            id: self.id.clone(),
            params,
            varadic: self.varadic,
            returns: clone_opt_type(&self.returns),
        }
    }
}

/// An assignable place.
#[derive(Debug, PartialEq, Eq)]
pub struct LExpression {
    pub ty: Type,
    pub mutable: bool,
    pub value: LExpressionValue,
}

#[derive(Debug, PartialEq, Eq)]
pub enum LExpressionValue {
    Var(Ident),
}

/// Mathematical model of an [`LExpressionValue`].
pub enum LValueView {
    Var(IdentView),
}

/// Mathematical model of an [`LExpression`].
pub struct LExprView {
    pub ty: TypeView,
    pub mutable: bool,
    pub value: LValueView,
}

impl View for LExpressionValue {
    type V = LValueView;

    open spec fn view(&self) -> LValueView {
        match self {
            LExpressionValue::Var(i) => LValueView::Var(i@),
        }
    }
}

impl View for LExpression {
    type V = LExprView;

    open spec fn view(&self) -> LExprView {
        LExprView { ty: self.ty@, mutable: self.mutable, value: self.value@ }
    }
}

/// An expression with its resolved type; `None` is the type of an
/// expression that yields no value.
#[derive(Debug, PartialEq, Eq)]
pub struct Expression {
    pub ty: Option<Type>,
    pub value: ExpressionValue,
}

/// A conditional: condition, the block taken when it holds, and the block
/// taken otherwise. An `else if` is held as an else-block whose only content
/// is the nested conditional as its tail.
#[derive(Debug, PartialEq, Eq)]
pub struct If(pub Box<Expression>, pub Box<Block>, pub Option<Box<Block>>);

#[derive(Debug, PartialEq, Eq)]
pub enum ExpressionValue {
    If(If),
    Loop(Box<Block>),
    Block(Box<Block>),
    Assign(Option<Op>, LExpression, Box<Expression>),
    Op(Op, Box<Expression>, Box<Expression>),
    CallConcrete(Ident, Vec<Expression>),
    LExpr(LExpression),
    ConstInt(u64),
    /// Index into the module's constant pool.
    ConstStr(usize),
}

#[derive(Debug, PartialEq, Eq)]
pub struct Block {
    pub statements: Vec<Statement>,
    pub tail: Option<Expression>,
}

#[derive(Debug, PartialEq, Eq)]
pub enum Statement {
    Decl(String, Expression),
    Eval(Expression),
    Break(Option<Expression>),
    Return(Option<Expression>),
}

/// Mathematical model of an [`Expression`].
pub struct ExprView {
    pub ty: Option<TypeView>,
    pub value: ValueView,
}

/// Mathematical model of an [`If`].
pub struct IfView {
    pub cond: Box<ExprView>,
    pub then_block: Box<BlockView>,
    pub else_block: Option<Box<BlockView>>,
}

/// Mathematical model of an [`ExpressionValue`].
pub enum ValueView {
    If(IfView),
    Loop(Box<BlockView>),
    Block(Box<BlockView>),
    Assign(Option<Op>, LExprView, Box<ExprView>),
    Op(Op, Box<ExprView>, Box<ExprView>),
    CallConcrete(IdentView, Seq<ExprView>),
    LExpr(LExprView),
    ConstInt(u64),
    ConstStr(usize),
}

/// Mathematical model of a [`Block`].
pub struct BlockView {
    pub statements: Seq<StmtView>,
    pub tail: Option<ExprView>,
}

/// Mathematical model of a [`Statement`].
pub enum StmtView {
    Decl(Seq<char>, ExprView),
    Eval(ExprView),
    Break(Option<ExprView>),
    Return(Option<ExprView>),
}

/// The model of an expression.
pub open spec fn view_expr(e: Expression) -> ExprView
    decreases e,
{
    ExprView { ty: view_opt_type(e.ty), value: view_value(e.value) }
}

/// The model of an optional expression.
pub open spec fn view_opt_expr(e: Option<Expression>) -> Option<ExprView>
    decreases e,
{
    match e {
        Some(e) => Some(view_expr(e)),
        None => None,
    }
}

/// The models of a sequence of expressions, element by element.
pub open spec fn view_exprs(es: Seq<Expression>) -> Seq<ExprView>
    decreases es,
{
    Seq::new(
        es.len(),
        |i: int|
            if 0 <= i < es.len() {
                view_expr(es[i])
            } else {
                arbitrary()
            },
    )
}

/// The model of the content of an expression.
pub open spec fn view_value(v: ExpressionValue) -> ValueView
    decreases v,
{
    match v {
        ExpressionValue::If(i) => ValueView::If(view_if(i)),
        ExpressionValue::Loop(b) => ValueView::Loop(Box::new(view_block(*b))),
        ExpressionValue::Block(b) => ValueView::Block(Box::new(view_block(*b))),
        ExpressionValue::Assign(op, l, r) => ValueView::Assign(op, l@, Box::new(view_expr(*r))),
        ExpressionValue::Op(op, l, r) => ValueView::Op(
            op,
            Box::new(view_expr(*l)),
            Box::new(view_expr(*r)),
        ),
        ExpressionValue::CallConcrete(id, args) => ValueView::CallConcrete(id@, view_exprs(args@)),
        ExpressionValue::LExpr(l) => ValueView::LExpr(l@),
        ExpressionValue::ConstInt(n) => ValueView::ConstInt(n),
        ExpressionValue::ConstStr(i) => ValueView::ConstStr(i),
    }
}

/// The model of a conditional.
pub open spec fn view_if(i: If) -> IfView
    decreases i,
{
    IfView {
        cond: Box::new(view_expr(*i.0)),
        then_block: Box::new(view_block(*i.1)),
        else_block: view_opt_block(i.2),
    }
}

/// The model of an optional block.
pub open spec fn view_opt_block(b: Option<Box<Block>>) -> Option<Box<BlockView>>
    decreases b,
{
    match b {
        Some(b) => Some(Box::new(view_block(*b))),
        None => None,
    }
}

/// The model of a block.
pub open spec fn view_block(b: Block) -> BlockView
    decreases b,
{
    BlockView { statements: view_stmts(b.statements@), tail: view_opt_expr(b.tail) }
}

/// The models of a sequence of statements, element by element.
pub open spec fn view_stmts(ss: Seq<Statement>) -> Seq<StmtView>
    decreases ss,
{
    Seq::new(
        ss.len(),
        |i: int|
            if 0 <= i < ss.len() {
                view_stmt(ss[i])
            } else {
                arbitrary()
            },
    )
}

/// The model of a statement.
pub open spec fn view_stmt(s: Statement) -> StmtView
    decreases s,
{
    match s {
        Statement::Decl(name, e) => StmtView::Decl(name@, view_expr(e)),
        Statement::Eval(e) => StmtView::Eval(view_expr(e)),
        Statement::Break(e) => StmtView::Break(view_opt_expr(e)),
        Statement::Return(e) => StmtView::Return(view_opt_expr(e)),
    }
}

impl View for Expression {
    type V = ExprView;

    open spec fn view(&self) -> ExprView {
        view_expr(*self)
    }
}

impl View for If {
    type V = IfView;

    open spec fn view(&self) -> IfView {
        view_if(*self)
    }
}

impl View for Block {
    type V = BlockView;

    open spec fn view(&self) -> BlockView {
        view_block(*self)
    }
}

impl View for Statement {
    type V = StmtView;

    open spec fn view(&self) -> StmtView {
        view_stmt(*self)
    }
}

impl Clone for LExpressionValue {
    fn clone(&self) -> (r: LExpressionValue)
        ensures
            r@ == self@,
    {
        match self {
            LExpressionValue::Var(i) => LExpressionValue::Var(i.clone()),
        }
    }
}

impl Clone for LExpression {
    fn clone(&self) -> (r: LExpression)
        ensures
            r@ == self@,
    {
        LExpression { ty: self.ty.clone(), mutable: self.mutable, value: self.value.clone() }
    }
}

/// A copy of an expression.
pub fn clone_expr(e: &Expression) -> (r: Expression)
    ensures
        view_expr(r) == view_expr(*e),
    decreases e, 1nat,
{
    Expression { ty: clone_opt_type(&e.ty), value: clone_value(&e.value) }
}

/// A copy of an optional expression.
pub fn clone_opt_expr(e: &Option<Expression>) -> (r: Option<Expression>)
    ensures
        view_opt_expr(r) == view_opt_expr(*e),
    decreases e, 2nat,
{
    match e {
        Some(e) => Some(clone_expr(e)),
        None => None,
    }
}

/// A copy of a list of expressions.
pub fn clone_exprs(es: &Vec<Expression>) -> (r: Vec<Expression>)
    ensures
        view_exprs(r@) == view_exprs(es@),
    decreases es, 0nat,
{
    let mut out: Vec<Expression> = Vec::new();
    let mut i: usize = 0;
    while i < es.len()
        invariant
            i <= es.len(),
            out@.len() == i,
            forall|j: int| 0 <= j < i ==> view_expr(out@[j]) == view_expr(es@[j]),
        decreases es.len() - i,
    {
        proof {
            assert(decreases_to!(es => es[i as int]));
        }
        out.push(clone_expr(&es[i]));
        i = i + 1;
    }
    assert(view_exprs(out@) =~= view_exprs(es@));
    out
}

/// A copy of the content of an expression.
pub fn clone_value(v: &ExpressionValue) -> (r: ExpressionValue)
    ensures
        view_value(r) == view_value(*v),
    decreases v, 0nat,
{
    match v {
        ExpressionValue::If(i) => ExpressionValue::If(clone_if(i)),
        ExpressionValue::Loop(b) => ExpressionValue::Loop(Box::new(clone_block(&**b))),
        ExpressionValue::Block(b) => ExpressionValue::Block(Box::new(clone_block(&**b))),
        ExpressionValue::Assign(op, l, r) => ExpressionValue::Assign(
            *op,
            l.clone(),
            Box::new(clone_expr(&**r)),
        ),
        ExpressionValue::Op(op, l, r) => ExpressionValue::Op(
            *op,
            Box::new(clone_expr(&**l)),
            Box::new(clone_expr(&**r)),
        ),
        ExpressionValue::CallConcrete(id, args) => ExpressionValue::CallConcrete(
            id.clone(),
            clone_exprs(args),
        ),
        ExpressionValue::LExpr(l) => ExpressionValue::LExpr(l.clone()),
        ExpressionValue::ConstInt(n) => ExpressionValue::ConstInt(*n),
        ExpressionValue::ConstStr(i) => ExpressionValue::ConstStr(*i),
    }
}

/// A copy of a conditional.
pub fn clone_if(i: &If) -> (r: If)
    ensures
        view_if(r) == view_if(*i),
    decreases i, 0nat,
{
    If(
        Box::new(clone_expr(&*i.0)),
        Box::new(clone_block(&*i.1)),
        match &i.2 {
            Some(b) => Some(Box::new(clone_block(&**b))),
            None => None,
        },
    )
}

/// A copy of a block.
pub fn clone_block(b: &Block) -> (r: Block)
    ensures
        view_block(r) == view_block(*b),
    decreases b, 1nat,
{
    Block { statements: clone_stmts(&b.statements), tail: clone_opt_expr(&b.tail) }
}

/// A copy of a list of statements.
pub fn clone_stmts(ss: &Vec<Statement>) -> (r: Vec<Statement>)
    ensures
        view_stmts(r@) == view_stmts(ss@),
    decreases ss, 0nat,
{
    let mut out: Vec<Statement> = Vec::new();
    let mut i: usize = 0;
    while i < ss.len()
        invariant
            i <= ss.len(),
            out@.len() == i,
            forall|j: int| 0 <= j < i ==> view_stmt(out@[j]) == view_stmt(ss@[j]),
        decreases ss.len() - i,
    {
        proof {
            assert(decreases_to!(ss => ss[i as int]));
        }
        out.push(clone_stmt(&ss[i]));
        i = i + 1;
    }
    assert(view_stmts(out@) =~= view_stmts(ss@));
    out
}

/// A copy of a statement.
pub fn clone_stmt(s: &Statement) -> (r: Statement)
    ensures
        view_stmt(r) == view_stmt(*s),
    decreases s, 3nat,
{
    match s {
        Statement::Decl(name, e) => Statement::Decl(name.clone(), clone_expr(e)),
        Statement::Eval(e) => Statement::Eval(clone_expr(e)),
        Statement::Break(e) => Statement::Break(clone_opt_expr(e)),
        Statement::Return(e) => Statement::Return(clone_opt_expr(e)),
    }
}

impl Clone for Expression {
    fn clone(&self) -> (r: Expression)
        ensures
            r@ == self@,
    {
        clone_expr(self)
    }
}

impl Clone for ExpressionValue {
    fn clone(&self) -> (r: ExpressionValue)
        ensures
            view_value(r) == view_value(*self),
    {
        clone_value(self)
    }
}

impl Clone for If {
    fn clone(&self) -> (r: If)
        ensures
            r@ == self@,
    {
        clone_if(self)
    }
}

impl Clone for Block {
    fn clone(&self) -> (r: Block)
        ensures
            r@ == self@,
    {
        clone_block(self)
    }
}

impl Clone for Statement {
    fn clone(&self) -> (r: Statement)
        ensures
            r@ == self@,
    {
        clone_stmt(self)
    }
}

/// The constant pool of a module: string constants in the order they were
/// interned, each with the flag that asks for a terminating zero byte.
#[derive(Debug, PartialEq, Eq)]
pub struct Constants {
    pub strings: Vec<(Vec<u8>, bool)>,
}

/// The models of the entries of a constant pool, entry by entry.
pub open spec fn view_strings(ss: Seq<(Vec<u8>, bool)>) -> Seq<(Seq<u8>, bool)> {
    Seq::new(ss.len(), |i: int| (ss[i].0@, ss[i].1))
}

impl View for Constants {
    type V = Seq<(Seq<u8>, bool)>;

    open spec fn view(&self) -> Seq<(Seq<u8>, bool)> {
        view_strings(self.strings@)
    }
}

impl Constants {
    /// An empty pool.
    pub fn new() -> (r: Constants)
        ensures
            r@ == Seq::<(Seq<u8>, bool)>::empty(),
    {
        let r = Constants { strings: Vec::new() };
        assert(r@ =~= Seq::empty());
        r
    }

    /// The number of constants in the pool.
    pub fn len(&self) -> (n: usize)
        ensures
            n == self@.len(),
    {
        self.strings.len()
    }

    /// Appends a constant and returns its index. Equal constants are not
    /// shared: each call makes a new entry.
    pub fn intern(&mut self, bytes: Vec<u8>, null_terminated: bool) -> (index: usize)
        ensures
            index == old(self)@.len(),
            final(self)@ == old(self)@.push((bytes@, null_terminated)),
    {
        let index = self.strings.len();
        self.strings.push((bytes, null_terminated));
        assert(self@ =~= old(self)@.push((bytes@, null_terminated)));
        index
    }

    /// The constant at `index`, if the pool has that many.
    pub fn get(&self, index: usize) -> (r: Option<(&Vec<u8>, bool)>)
        ensures
            match r {
                Some((bytes, flag)) => index < self@.len() && self@[index as int] == (bytes@, flag),
                None => index >= self@.len(),
            },
    {
        if index < self.strings.len() {
            Some((&self.strings[index].0, self.strings[index].1))
        } else {
            None
        }
    }
}

/// A pool after some more constants were appended to it, in order.
pub open spec fn interned_all(pool: Seq<(Seq<u8>, bool)>, more: Seq<(Seq<u8>, bool)>) -> Seq<
    (Seq<u8>, bool),
>
    decreases more.len(),
{
    if more.len() == 0 {
        pool
    } else {
        interned_all(pool, more.drop_last()).push(more.last())
    }
}

/// A constant that was interned is found under the index that interning
/// returned, with its bytes and its flag as they were given, whatever was
/// interned before it and whatever is interned after it.
pub proof fn law_intern_round_trip(
    before: Seq<(Seq<u8>, bool)>,
    bytes: Seq<u8>,
    null_terminated: bool,
    after: Seq<(Seq<u8>, bool)>,
)
    ensures
        before.len() < interned_all(before.push((bytes, null_terminated)), after).len(),
        interned_all(before.push((bytes, null_terminated)), after)[before.len() as int] == (
            bytes,
            null_terminated,
        ),
    decreases after.len(),
{
    if after.len() > 0 {
        law_intern_round_trip(before, bytes, null_terminated, after.drop_last());
    }
}

/// The body of a function: its locals and its code.
#[derive(Debug, PartialEq, Eq)]
pub struct FnBody {
    /// Every local declared anywhere in the body, in order of declaration.
    pub decls: Vec<Decl>,
    pub block: Block,
}

/// The models of a list of declarations, element by element.
pub open spec fn view_decls(ds: Seq<Decl>) -> Seq<DeclView> {
    Seq::new(ds.len(), |i: int| ds[i]@)
}

/// Mathematical model of a [`FnBody`].
pub struct FnBodyView {
    pub decls: Seq<DeclView>,
    pub block: BlockView,
}

impl View for FnBody {
    type V = FnBodyView;

    open spec fn view(&self) -> FnBodyView {
        FnBodyView { decls: view_decls(self.decls@), block: self.block@ }
    }
}

/// A function definition.
#[derive(Debug, PartialEq, Eq)]
pub struct DefFn {
    pub id: Ident,
    pub body: FnBody,
}

/// Mathematical model of a [`DefFn`].
pub struct DefFnView {
    pub id: IdentView,
    pub body: FnBodyView,
}

impl View for DefFn {
    type V = DefFnView;

    open spec fn view(&self) -> DefFnView {
        DefFnView { id: self.id@, body: self.body@ }
    }
}

/// The program entry point.
#[derive(Debug, PartialEq, Eq)]
pub struct DefEntry {
    pub returns: Option<Type>,
    pub body: FnBody,
}

/// Mathematical model of a [`DefEntry`].
pub struct DefEntryView {
    pub returns: Option<TypeView>,
    pub body: FnBodyView,
}

impl View for DefEntry {
    type V = DefEntryView;

    open spec fn view(&self) -> DefEntryView {
        DefEntryView { returns: view_opt_type(self.returns), body: self.body@ }
    }
}

/// A lowered module.
#[derive(Debug, PartialEq, Eq)]
pub struct Module {
    pub name: Ident,
    /// The signature of every function that the module declares or defines.
    pub fn_decls: Vec<DeclFn>,
    pub fn_defs: Vec<DefFn>,
    pub consts: Constants,
    pub entry: Option<DefEntry>,
}

/// The models of a list of signatures, element by element.
pub open spec fn view_fn_decls(ds: Seq<DeclFn>) -> Seq<DeclFnView> {
    Seq::new(ds.len(), |i: int| ds[i]@)
}

/// The models of a list of function definitions, element by element.
pub open spec fn view_fn_defs(ds: Seq<DefFn>) -> Seq<DefFnView> {
    Seq::new(ds.len(), |i: int| ds[i]@)
}

/// Mathematical model of a [`Module`].
pub struct ModuleView {
    pub name: IdentView,
    pub fn_decls: Seq<DeclFnView>,
    pub fn_defs: Seq<DefFnView>,
    pub consts: Seq<(Seq<u8>, bool)>,
    pub entry: Option<DefEntryView>,
}

impl View for Module {
    type V = ModuleView;

    open spec fn view(&self) -> ModuleView {
        ModuleView {
            name: self.name@,
            fn_decls: view_fn_decls(self.fn_decls@),
            fn_defs: view_fn_defs(self.fn_defs@),
            consts: self.consts@,
            entry: match self.entry {
                Some(e) => Some(e@),
                None => None,
            },
        }
    }
}

} // verus!
