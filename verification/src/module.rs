//! Lowering of a whole file: the function table is built from every
//! declaration first, then each body is lowered against it.

use vstd::prelude::*;
use crate::ast;
use crate::error::{LIRError, LIRErrorType};
use crate::lir::{
    Block, Constants, Decl, DeclFn, DeclFnView, DeclView, DefEntry, DefEntryView, DefFn,
    DefFnView, FnBody, FnBodyView, Module, ModuleView, view_fn_decls, view_fn_defs,
    view_params,
};
use crate::lower::Lowering;
use crate::model::{LowerState, Lowered, lower_block, lower_opt_type, lower_type};
use crate::scope::{NameResolveMap, NamesView, StackScope, bindings_map, fn_table};
use crate::types::{Ident, IdentView, Type, TypeView};

verus! {

/// The parameters of a declared function, the first `n` of them: each with
/// its name, or the empty name where it has none, and its resolved type.
pub open spec fn lower_extern_params(ps: Seq<(Option<String>, ast::Type)>, n: nat) -> Result<
    Seq<(Seq<char>, TypeView)>,
    LIRErrorType,
>
    decreases n,
{
    if n == 0 || n > ps.len() {
        Ok(Seq::empty())
    } else {
        match lower_extern_params(ps, (n - 1) as nat) {
            Err(k) => Err(k),
            Ok(done) => match lower_type(ps[n - 1].1) {
                Err(k) => Err(k),
                Ok(ty) => Ok(
                    done.push(
                        (
                            match ps[n - 1].0 {
                                Some(name) => name@,
                                None => Seq::empty(),
                            },
                            ty,
                        ),
                    ),
                ),
            },
        }
    }
}

/// The parameters of a defined function, the first `n` of them.
pub open spec fn lower_params(ps: Seq<(String, ast::Type)>, n: nat) -> Result<
    Seq<(Seq<char>, TypeView)>,
    LIRErrorType,
>
    decreases n,
{
    if n == 0 || n > ps.len() {
        Ok(Seq::empty())
    } else {
        match lower_params(ps, (n - 1) as nat) {
            Err(k) => Err(k),
            Ok(done) => match lower_type(ps[n - 1].1) {
                Err(k) => Err(k),
                Ok(ty) => Ok(done.push((ps[n - 1].0@, ty))),
            },
        }
    }
}

/// The signature of a declared function.
pub open spec fn extern_signature(f: ast::FnExtern) -> Result<DeclFnView, LIRErrorType> {
    match lower_extern_params(f.params@, f.params@.len()) {
        Err(k) => Err(k),
        Ok(params) => match lower_opt_type(f.returns) {
            Err(k) => Err(k),
            Ok(ret) => Ok(
                DeclFnView {
                    id: IdentView::UnmangledItem(f.name@),
                    params,
                    varadic: f.varadic,
                    returns: ret,
                },
            ),
        },
    }
}

/// The signature of a defined function. It is never variadic.
pub open spec fn def_signature(f: ast::FnDef) -> Result<DeclFnView, LIRErrorType> {
    match lower_params(f.params@, f.params@.len()) {
        Err(k) => Err(k),
        Ok(params) => match lower_opt_type(f.returns) {
            Err(k) => Err(k),
            Ok(ret) => Ok(
                DeclFnView {
                    id: IdentView::UnmangledItem(f.name@),
                    params,
                    varadic: false,
                    returns: ret,
                },
            ),
        },
    }
}

/// The signature that a top-level declaration contributes, if it declares
/// or defines a function.
pub open spec fn signature_of(d: ast::TopLevelDecl) -> Result<Option<DeclFnView>, LIRErrorType> {
    match d {
        ast::TopLevelDecl::FnExtern(f) => match extern_signature(f) {
            Ok(s) => Ok(Some(s)),
            Err(k) => Err(k),
        },
        ast::TopLevelDecl::Def(ast::TopLevelDef::Def(ast::Def::Fn(f))) => match def_signature(f) {
            Ok(s) => Ok(Some(s)),
            Err(k) => Err(k),
        },
        _ => Ok(None),
    }
}

/// The signature that a top-level declaration contributes, if it defines a
/// function.
pub open spec fn def_signature_of(d: ast::TopLevelDecl) -> Result<
    Option<DeclFnView>,
    LIRErrorType,
> {
    match d {
        ast::TopLevelDecl::Def(ast::TopLevelDef::Def(ast::Def::Fn(f))) => match def_signature(f) {
            Ok(s) => Ok(Some(s)),
            Err(k) => Err(k),
        },
        _ => Ok(None),
    }
}

/// The signatures of the functions that the first `n` declarations declare
/// or define, in order.
pub open spec fn signatures(ds: Seq<ast::TopLevelDecl>, n: nat) -> Result<
    Seq<DeclFnView>,
    LIRErrorType,
>
    decreases n,
{
    if n == 0 || n > ds.len() {
        Ok(Seq::empty())
    } else {
        match signatures(ds, (n - 1) as nat) {
            Err(k) => Err(k),
            Ok(done) => match signature_of(ds[n - 1]) {
                Err(k) => Err(k),
                Ok(Some(s)) => Ok(done.push(s)),
                Ok(None) => Ok(done),
            },
        }
    }
}

/// The signatures of the functions that the first `n` declarations define,
/// in order.
pub open spec fn def_signatures(ds: Seq<ast::TopLevelDecl>, n: nat) -> Result<
    Seq<DeclFnView>,
    LIRErrorType,
>
    decreases n,
{
    if n == 0 || n > ds.len() {
        Ok(Seq::empty())
    } else {
        match def_signatures(ds, (n - 1) as nat) {
            Err(k) => Err(k),
            Ok(done) => match def_signature_of(ds[n - 1]) {
                Err(k) => Err(k),
                Ok(Some(s)) => Ok(done.push(s)),
                Ok(None) => Ok(done),
            },
        }
    }
}

/// The function table that a list of signatures denotes: each is entered
/// under its identifier, a later one replacing an earlier one.
pub open spec fn table_of(sigs: Seq<DeclFnView>) -> Map<IdentView, DeclFnView> {
    bindings_map(Seq::new(sigs.len(), |i: int| (sigs[i].id, sigs[i])))
}

/// The function table of a file. Every function that the file declares or
/// defines is in it, whatever the order of the declarations. Of two
/// functions with one name a definition wins over a declaration, and
/// otherwise the later one.
pub open spec fn module_table(ds: Seq<ast::TopLevelDecl>) -> Result<
    Map<IdentView, DeclFnView>,
    LIRErrorType,
> {
    match signatures(ds, ds.len()) {
        Err(k) => Err(k),
        Ok(sigs) => match def_signatures(ds, ds.len()) {
            Err(k) => Err(k),
            Ok(defs) => Ok(table_of(sigs + defs)),
        },
    }
}

/// The scope that holds the first `n` parameters of a function, each as an
/// immutable local.
pub open spec fn param_scope(ps: Seq<(String, ast::Type)>, n: nat) -> Result<
    Map<Seq<char>, DeclView>,
    LIRErrorType,
>
    decreases n,
{
    if n == 0 || n > ps.len() {
        Ok(Map::empty())
    } else {
        match param_scope(ps, (n - 1) as nat) {
            Err(k) => Err(k),
            Ok(scope) => match lower_type(ps[n - 1].1) {
                Err(k) => Err(k),
                Ok(ty) => Ok(
                    scope.insert(
                        ps[n - 1].0@,
                        DeclView { name: IdentView::Local(ps[n - 1].0@), mutable: false, ty },
                    ),
                ),
            },
        }
    }
}

/// The lowered form of the body of a function. The body starts with no
/// local declared and no loop entered, and leaves none behind, whether it
/// is lowered or found in error.
pub open spec fn lower_body(b: ast::Block, st: LowerState) -> Lowered<FnBodyView> {
    match lower_block(b, LowerState { decls: Seq::empty(), loops: Seq::empty(), ..st }) {
        Err((k, st1)) => Err(
            (k, LowerState { decls: Seq::empty(), loops: Seq::empty(), ..st1 }),
        ),
        Ok((block, st1)) => Ok(
            (
                FnBodyView { decls: st1.decls, block },
                LowerState { decls: Seq::empty(), loops: Seq::empty(), ..st1 },
            ),
        ),
    }
}

/// What has been lowered of a file.
pub struct ModuleState {
    pub st: LowerState,
    pub fn_defs: Seq<DefFnView>,
    pub entry: Option<DefEntryView>,
}

/// Whether a top-level declaration is the program entry point.
pub open spec fn is_entry(d: ast::TopLevelDecl) -> bool {
    d matches ast::TopLevelDecl::Def(ast::TopLevelDef::Entry(_))
}

/// The number of entry points among the first `n` declarations.
pub open spec fn entries(ds: Seq<ast::TopLevelDecl>, n: nat) -> nat
    decreases n,
{
    if n == 0 || n > ds.len() {
        0
    } else if is_entry(ds[n - 1]) {
        entries(ds, (n - 1) as nat) + 1
    } else {
        entries(ds, (n - 1) as nat)
    }
}

/// No shorter prefix of a file has more entry points.
pub proof fn lemma_entries_grow(ds: Seq<ast::TopLevelDecl>, n: nat, m: nat)
    requires
        n <= m <= ds.len(),
    ensures
        entries(ds, n) <= entries(ds, m),
    decreases m,
{
    if n < m {
        lemma_entries_grow(ds, n, (m - 1) as nat);
    }
}

/// The result of lowering a declaration of a file: what has been lowered
/// afterwards, or the error and what had been lowered when it was found.
pub type LoweredDef = Result<ModuleState, (LIRErrorType, ModuleState)>;

/// The state after the body of a top-level declaration is lowered. A
/// declaration without a body leaves it as it is. Where the body is in
/// error, the scope of the parameters is closed again.
#[verifier::opaque]
pub open spec fn lower_def(d: ast::TopLevelDecl, ms: ModuleState) -> LoweredDef {
    match d {
        ast::TopLevelDecl::Def(ast::TopLevelDef::Entry(e)) => match lower_opt_type(e.returns) {
            Err(k) => Err((k, ms)),
            Ok(ret) => match lower_body(e.body, ms.st) {
                Err((k, st1)) => Err((k, ModuleState { st: st1, ..ms })),
                Ok((body, st1)) => Ok(
                    ModuleState { st: st1, entry: Some(DefEntryView { returns: ret, body }), ..ms },
                ),
            },
        },
        ast::TopLevelDecl::Def(ast::TopLevelDef::Def(ast::Def::Fn(f))) => match param_scope(
            f.params@,
            f.params@.len(),
        ) {
            Err(k) => Err((k, ms)),
            Ok(scope) => match lower_body(
                f.body,
                LowerState {
                    names: NamesView { scopes: ms.st.names.scopes.push(scope), ..ms.st.names },
                    ..ms.st
                },
            ) {
                Err((k, st1)) => Err((k, ModuleState { st: st1.pop_scope(), ..ms })),
                Ok((body, st1)) => Ok(
                    ModuleState {
                        st: st1.pop_scope(),
                        fn_defs: ms.fn_defs.push(
                            DefFnView { id: IdentView::UnmangledItem(f.name@), body },
                        ),
                        ..ms
                    },
                ),
            },
        },
        _ => Ok(ms),
    }
}

/// The state after the bodies of the first `n` declarations are lowered, in
/// order.
pub open spec fn lower_defs(ds: Seq<ast::TopLevelDecl>, n: nat, ms: ModuleState) -> LoweredDef
    decreases n,
{
    if n == 0 || n > ds.len() {
        Ok(ms)
    } else {
        match lower_defs(ds, (n - 1) as nat, ms) {
            Err(k) => Err(k),
            Ok(ms1) => lower_def(ds[n - 1], ms1),
        }
    }
}

/// The state in which the first body of a file is lowered.
pub open spec fn initial_state(table: Map<IdentView, DeclFnView>) -> ModuleState {
    ModuleState {
        st: LowerState {
            names: NamesView { fns: table, scopes: Seq::empty() },
            decls: Seq::empty(),
            loops: Seq::empty(),
            strings: Seq::empty(),
        },
        fn_defs: Seq::empty(),
        entry: None,
    }
}

/// The lowered form of a file.
pub open spec fn lower_module(name: IdentView, ds: Seq<ast::TopLevelDecl>) -> Result<
    ModuleView,
    LIRErrorType,
> {
    match signatures(ds, ds.len()) {
        Err(k) => Err(k),
        Ok(sigs) => match module_table(ds) {
            Err(k) => Err(k),
            Ok(table) => match lower_defs(ds, ds.len(), initial_state(table)) {
                Err((k, _)) => Err(k),
                Ok(ms) => Ok(
                    ModuleView {
                        name,
                        fn_decls: sigs,
                        fn_defs: ms.fn_defs,
                        consts: ms.st.strings,
                        entry: ms.entry,
                    },
                ),
            },
        },
    }
}

/// Once a prefix of the parameters fails to resolve, so does every longer
/// prefix, with the same error.
pub proof fn lemma_lower_extern_params_fails(ps: Seq<(Option<String>, ast::Type)>, n: nat, m: nat)
    requires
        n <= m <= ps.len(),
        lower_extern_params(ps, n).is_err(),
    ensures
        lower_extern_params(ps, m) == lower_extern_params(ps, n),
    decreases m,
{
    if n < m {
        lemma_lower_extern_params_fails(ps, n, (m - 1) as nat);
    }
}

/// Once a prefix of the parameters fails to resolve, so does every longer
/// prefix, with the same error.
pub proof fn lemma_lower_params_fails(ps: Seq<(String, ast::Type)>, n: nat, m: nat)
    requires
        n <= m <= ps.len(),
        lower_params(ps, n).is_err(),
    ensures
        lower_params(ps, m) == lower_params(ps, n),
    decreases m,
{
    if n < m {
        lemma_lower_params_fails(ps, n, (m - 1) as nat);
    }
}

/// Once a prefix of the parameters fails to resolve, so does every longer
/// prefix, with the same error.
pub proof fn lemma_param_scope_fails(ps: Seq<(String, ast::Type)>, n: nat, m: nat)
    requires
        n <= m <= ps.len(),
        param_scope(ps, n).is_err(),
    ensures
        param_scope(ps, m) == param_scope(ps, n),
    decreases m,
{
    if n < m {
        lemma_param_scope_fails(ps, n, (m - 1) as nat);
    }
}

/// Once a prefix of the declarations fails, so does every longer prefix,
/// with the same error.
pub proof fn lemma_signatures_fails(ds: Seq<ast::TopLevelDecl>, n: nat, m: nat)
    requires
        n <= m <= ds.len(),
        signatures(ds, n).is_err(),
    ensures
        signatures(ds, m) == signatures(ds, n),
    decreases m,
{
    if n < m {
        lemma_signatures_fails(ds, n, (m - 1) as nat);
    }
}

/// Once a prefix of the declarations fails, so does every longer prefix,
/// with the same error.
pub proof fn lemma_def_signatures_fails(ds: Seq<ast::TopLevelDecl>, n: nat, m: nat)
    requires
        n <= m <= ds.len(),
        def_signatures(ds, n).is_err(),
    ensures
        def_signatures(ds, m) == def_signatures(ds, n),
    decreases m,
{
    if n < m {
        lemma_def_signatures_fails(ds, n, (m - 1) as nat);
    }
}

/// Once a prefix of the declarations fails to lower, so does every longer
/// prefix, with the same error.
pub proof fn lemma_lower_defs_fails(ds: Seq<ast::TopLevelDecl>, n: nat, m: nat, ms: ModuleState)
    requires
        n <= m <= ds.len(),
        lower_defs(ds, n, ms).is_err(),
    ensures
        lower_defs(ds, m, ms) == lower_defs(ds, n, ms),
    decreases m,
{
    if n < m {
        lemma_lower_defs_fails(ds, n, (m - 1) as nat, ms);
    }
}

/// The signature of every function among the first `n` declarations is
/// among the signatures of those declarations.
pub proof fn lemma_signatures_complete(ds: Seq<ast::TopLevelDecl>, n: nat, i: int)
    requires
        0 <= i < n <= ds.len(),
        signatures(ds, n).is_ok(),
    ensures
        signature_of(ds[i]).is_ok(),
        signature_of(ds[i]) matches Ok(Some(s)) ==> signatures(ds, n).unwrap().contains(s),
    decreases n,
{
    let all = signatures(ds, n).unwrap();
    let before = signatures(ds, (n - 1) as nat).unwrap();
    if i < n - 1 {
        lemma_signatures_complete(ds, (n - 1) as nat, i);
        if let Ok(Some(s)) = signature_of(ds[i]) {
            let j = choose|j: int| 0 <= j < before.len() && before[j] == s;
            assert(all[j] == s);
        }
    } else {
        if let Ok(Some(s)) = signature_of(ds[i]) {
            assert(all[all.len() - 1] == s);
        }
    }
}

/// Every function that a file declares or defines is in the function
/// table of the file, wherever in the file it stands: a body can call a
/// function that is defined after it.
pub proof fn law_forward_references(ds: Seq<ast::TopLevelDecl>, i: int)
    requires
        0 <= i < ds.len(),
        module_table(ds).is_ok(),
    ensures
        signature_of(ds[i]) matches Ok(Some(s)) ==> module_table(ds).unwrap().contains_key(s.id)
            && initial_state(module_table(ds).unwrap()).st.names.resolve_fn(s.id).is_some(),
{
    lemma_signatures_complete(ds, ds.len(), i);
    if let Ok(Some(s)) = signature_of(ds[i]) {
        let sigs = signatures(ds, ds.len()).unwrap();
        let defs = def_signatures(ds, ds.len()).unwrap();
        let all = sigs + defs;
        let bs = Seq::new(all.len(), |k: int| (all[k].id, all[k]));
        let j = choose|j: int| 0 <= j < sigs.len() && sigs[j] == s;
        assert(bs[j].0 == s.id);
        crate::scope::lemma_bindings_lookup(bs, s.id);
    }
}

/// The name of a parameter that was declared without one.
pub fn unnamed() -> (r: String)
    ensures
        r@ == Seq::<char>::empty(),
{
    String::new()
}

impl DeclFn {
    /// The signature of a declared function.
    pub fn from_extern(f: &ast::FnExtern, names: &NameResolveMap) -> (r: Result<DeclFn, LIRError>)
        ensures
            match extern_signature(*f) {
                Ok(v) => r matches Ok(x) && x@ == v,
                Err(k) => r matches Err(err) && err.ty == k,
            },
    {
        let mut params: Vec<(String, Type)> = Vec::new();
        let mut i: usize = 0;
        assert(view_params(params@) =~= Seq::empty());
        while i < f.params.len()
            invariant
                i <= f.params.len(),
                lower_extern_params(f.params@, i as nat) == Ok::<
                    Seq<(Seq<char>, TypeView)>,
                    LIRErrorType,
                >(view_params(params@)),
            decreases f.params.len() - i,
        {
            let ty = match Type::from_ast(&f.params[i].1, names) {
                Ok(ty) => ty,
                Err(err) => {
                    proof {
                        lemma_lower_extern_params_fails(
                            f.params@,
                            (i + 1) as nat,
                            f.params@.len(),
                        );
                    }
                    return Err(err);
                },
            };
            let name = match &f.params[i].0 {
                Some(name) => name.clone(),
                None => unnamed(),
            };
            assert(view_params(params@.push((name, ty))) =~= view_params(params@).push(
                (name@, ty@),
            ));
            params.push((name, ty));
            i = i + 1;
        }
        match Type::opt_from_ast(&f.returns, names) {
            Ok(ret) => Ok(
                DeclFn {
                    id: Ident::UnmangledItem(f.name.clone()),
                    params,
                    varadic: f.varadic,
                    returns: ret,
                },
            ),
            Err(err) => Err(err),
        }
    }

    /// The signature of a defined function.
    pub fn from_def(f: &ast::FnDef, names: &NameResolveMap) -> (r: Result<DeclFn, LIRError>)
        ensures
            match def_signature(*f) {
                Ok(v) => r matches Ok(x) && x@ == v,
                Err(k) => r matches Err(err) && err.ty == k,
            },
    {
        let mut params: Vec<(String, Type)> = Vec::new();
        let mut i: usize = 0;
        assert(view_params(params@) =~= Seq::empty());
        while i < f.params.len()
            invariant
                i <= f.params.len(),
                lower_params(f.params@, i as nat) == Ok::<Seq<(Seq<char>, TypeView)>, LIRErrorType>(
                    view_params(params@),
                ),
            decreases f.params.len() - i,
        {
            let ty = match Type::from_ast(&f.params[i].1, names) {
                Ok(ty) => ty,
                Err(err) => {
                    proof {
                        lemma_lower_params_fails(f.params@, (i + 1) as nat, f.params@.len());
                    }
                    return Err(err);
                },
            };
            let name = f.params[i].0.clone();
            assert(view_params(params@.push((name, ty))) =~= view_params(params@).push(
                (name@, ty@),
            ));
            params.push((name, ty));
            i = i + 1;
        }
        match Type::opt_from_ast(&f.returns, names) {
            Ok(ret) => Ok(
                DeclFn {
                    id: Ident::UnmangledItem(f.name.clone()),
                    params,
                    varadic: false,
                    returns: ret,
                },
            ),
            Err(err) => Err(err),
        }
    }

    /// The signature that a top-level declaration contributes, if it
    /// declares or defines a function.
    pub fn of_decl(d: &ast::TopLevelDecl, names: &NameResolveMap) -> (r: Result<
        Option<DeclFn>,
        LIRError,
    >)
        ensures
            match signature_of(*d) {
                Ok(Some(v)) => r matches Ok(Some(x)) && x@ == v,
                Ok(None) => r matches Ok(None),
                Err(k) => r matches Err(err) && err.ty == k,
            },
    {
        match d {
            ast::TopLevelDecl::FnExtern(f) => match DeclFn::from_extern(f, names) {
                Ok(s) => Ok(Some(s)),
                Err(err) => Err(err),
            },
            ast::TopLevelDecl::Def(ast::TopLevelDef::Def(ast::Def::Fn(f))) => match DeclFn::from_def(
                f,
                names,
            ) {
                Ok(s) => Ok(Some(s)),
                Err(err) => Err(err),
            },
            _ => Ok(None),
        }
    }

    /// The signature that a top-level declaration contributes, if it defines
    /// a function.
    pub fn of_def(d: &ast::TopLevelDecl, names: &NameResolveMap) -> (r: Result<
        Option<DeclFn>,
        LIRError,
    >)
        ensures
            match def_signature_of(*d) {
                Ok(Some(v)) => r matches Ok(Some(x)) && x@ == v,
                Ok(None) => r matches Ok(None),
                Err(k) => r matches Err(err) && err.ty == k,
            },
    {
        match d {
            ast::TopLevelDecl::Def(ast::TopLevelDef::Def(ast::Def::Fn(f))) => match DeclFn::from_def(
                f,
                names,
            ) {
                Ok(s) => Ok(Some(s)),
                Err(err) => Err(err),
            },
            _ => Ok(None),
        }
    }
}

impl StackScope {
    /// The scope that holds the parameters of a function, each as an
    /// immutable local.
    pub fn of_params(ps: &Vec<(String, ast::Type)>, names: &NameResolveMap) -> (r: Result<
        StackScope,
        LIRError,
    >)
        ensures
            match param_scope(ps@, ps@.len()) {
                Ok(v) => r matches Ok(x) && x@ == v,
                Err(k) => r matches Err(err) && err.ty == k,
            },
    {
        let mut scope = StackScope::new();
        let mut i: usize = 0;
        while i < ps.len()
            invariant
                i <= ps.len(),
                param_scope(ps@, i as nat) == Ok::<Map<Seq<char>, DeclView>, LIRErrorType>(scope@),
            decreases ps.len() - i,
        {
            let ty = match Type::from_ast(&ps[i].1, names) {
                Ok(ty) => ty,
                Err(err) => {
                    proof {
                        lemma_param_scope_fails(ps@, (i + 1) as nat, ps@.len());
                    }
                    return Err(err);
                },
            };
            let decl = Decl { name: Ident::Local(ps[i].0.clone()), mutable: false, ty };
            scope.insert(ps[i].0.clone(), decl);
            i = i + 1;
        }
        Ok(scope)
    }
}

impl FnBody {
    /// Lowers the body of a function. The locals that the body declares are
    /// collected into the result.
    pub fn from_ast(block: &ast::Block, ctx: &mut Lowering) -> (r: Result<FnBody, LIRError>)
        ensures
            match lower_body(*block, old(ctx)@) {
                Ok((v, st)) => r matches Ok(x) && x@ == v && final(ctx)@ == st,
                Err((k, st)) => r matches Err(err) && err.ty == k && final(ctx)@ == st,
            },
    {
        ctx.decls = Vec::new();
        ctx.loops = Vec::new();
        assert(ctx@.decls =~= Seq::empty());
        assert(ctx@.loops =~= Seq::empty());
        match Block::from_ast(block, ctx) {
            Ok(block) => {
                let mut decls: Vec<Decl> = Vec::new();
                core::mem::swap(&mut decls, &mut ctx.decls);
                ctx.loops = Vec::new();
                assert(ctx@.decls =~= Seq::empty());
                assert(ctx@.loops =~= Seq::empty());
                Ok(FnBody { decls, block })
            },
            Err(err) => {
                ctx.decls = Vec::new();
                ctx.loops = Vec::new();
                assert(ctx@.decls =~= Seq::empty());
                assert(ctx@.loops =~= Seq::empty());
                Err(err)
            },
        }
    }
}

/// The model of an optional entry point.
pub open spec fn view_entry(e: Option<DefEntry>) -> Option<DefEntryView> {
    match e {
        Some(e) => Some(e@),
        None => None,
    }
}

/// What has been lowered of a file, and the state to go on with.
#[derive(Debug)]
pub struct ModuleBuilder {
    pub ctx: Lowering,
    pub fn_defs: Vec<DefFn>,
    pub entry: Option<DefEntry>,
}

impl View for ModuleBuilder {
    type V = ModuleState;

    open spec fn view(&self) -> ModuleState {
        ModuleState {
            st: self.ctx@,
            fn_defs: view_fn_defs(self.fn_defs@),
            entry: view_entry(self.entry),
        }
    }
}

/// A function table holds under each identifier the last signature entered
/// under it, whether it is read off the signatures or off their models.
pub proof fn lemma_fn_table(fns: Seq<DeclFn>)
    ensures
        fn_table(fns) == table_of(view_fn_decls(fns)),
{
    assert(Seq::new(fns.len(), |i: int| (fns[i].id@, fns[i]@)) =~= Seq::new(
        view_fn_decls(fns).len(),
        |i: int| (view_fn_decls(fns)[i].id, view_fn_decls(fns)[i]),
    ));
}

impl ModuleBuilder {
    /// The state in which the first body of a file is lowered: the function
    /// table is complete, and nothing else is there yet.
    pub fn new(table: Vec<DeclFn>) -> (r: ModuleBuilder)
        ensures
            r@ == initial_state(table_of(view_fn_decls(table@))),
    {
        let mut names = NameResolveMap::new();
        names.set_functions(table);
        proof {
            lemma_fn_table(table@);
        }
        let r = ModuleBuilder {
            ctx: Lowering::new(names, Constants::new()),
            fn_defs: Vec::new(),
            entry: None,
        };
        assert(r@.fn_defs =~= Seq::empty());
        r
    }

    /// Lowers the program entry point. A file has at most one: none has
    /// been lowered before.
    pub fn lower_entry(&mut self, e: &ast::Entry) -> (r: Result<(), LIRError>)
        requires
            old(self)@.entry.is_none(),
        ensures
            match lower_def(ast::TopLevelDecl::Def(ast::TopLevelDef::Entry(*e)), old(self)@) {
                Ok(ms) => r.is_ok() && final(self)@ == ms && ms.entry.is_some(),
                Err((k, ms)) => r matches Err(err) && err.ty == k && final(self)@ == ms
                    && ms.entry.is_none(),
            },
    {
        reveal(lower_def);
        let ret = match Type::opt_from_ast(&e.returns, &self.ctx.names) {
            Ok(t) => t,
            Err(err) => {
                return Err(err);
            },
        };
        match FnBody::from_ast(&e.body, &mut self.ctx) {
            Ok(body) => {
                self.entry = Some(DefEntry { returns: ret, body });
                Ok(())
            },
            Err(err) => Err(err),
        }
    }

    /// Lowers a function definition. Its parameters are immutable locals in
    /// a scope around the body.
    pub fn lower_fn(&mut self, f: &ast::FnDef) -> (r: Result<(), LIRError>)
        ensures
            match lower_def(
                ast::TopLevelDecl::Def(ast::TopLevelDef::Def(ast::Def::Fn(*f))),
                old(self)@,
            ) {
                Ok(ms) => r.is_ok() && final(self)@ == ms && ms.entry == old(self)@.entry,
                Err((k, ms)) => r matches Err(err) && err.ty == k && final(self)@ == ms
                    && ms.entry == old(self)@.entry,
            },
    {
        reveal(lower_def);
        let scope = match StackScope::of_params(&f.params, &self.ctx.names) {
            Ok(s) => s,
            Err(err) => {
                return Err(err);
            },
        };
        self.ctx.names.push_filled_scope(scope);
        match FnBody::from_ast(&f.body, &mut self.ctx) {
            Ok(body) => {
                self.ctx.pop_scope();
                let def = DefFn { id: Ident::UnmangledItem(f.name.clone()), body };
                assert(view_fn_defs(self.fn_defs@.push(def)) =~= view_fn_defs(self.fn_defs@).push(
                    def@,
                ));
                self.fn_defs.push(def);
                Ok(())
            },
            Err(err) => {
                self.ctx.pop_scope();
                Err(err)
            },
        }
    }

    /// Lowers the body of a top-level declaration, if it has one. An entry
    /// point has to be the first of the file.
    pub fn lower_def(&mut self, d: &ast::TopLevelDecl) -> (r: Result<(), LIRError>)
        requires
            is_entry(*d) ==> old(self)@.entry.is_none(),
        ensures
            match lower_def(*d, old(self)@) {
                Ok(ms) => r.is_ok() && final(self)@ == ms && ms.entry.is_some() == (
                old(self)@.entry.is_some() || is_entry(*d)),
                Err((k, ms)) => r matches Err(err) && err.ty == k && final(self)@ == ms,
            },
    {
        reveal(lower_def);
        match d {
            ast::TopLevelDecl::Def(ast::TopLevelDef::Entry(e)) => self.lower_entry(e),
            ast::TopLevelDecl::Def(ast::TopLevelDef::Def(ast::Def::Fn(f))) => self.lower_fn(f),
            _ => Ok(()),
        }
    }
}

/// The number of entry points of a file.
pub fn count_entries(ds: &Vec<ast::TopLevelDecl>) -> (n: usize)
    ensures
        n == entries(ds@, ds@.len()),
{
    let mut n: usize = 0;
    let mut i: usize = 0;
    while i < ds.len()
        invariant
            i <= ds.len(),
            n <= i,
            n == entries(ds@, i as nat),
        decreases ds.len() - i,
    {
        match &ds[i] {
            ast::TopLevelDecl::Def(ast::TopLevelDef::Entry(_)) => {
                n = n + 1;
            },
            _ => {},
        }
        i = i + 1;
    }
    n
}

impl Module {
    /// The signatures of the functions that a file declares or defines, in
    /// order.
    pub fn signatures(ds: &Vec<ast::TopLevelDecl>, names: &NameResolveMap) -> (r: Result<
        Vec<DeclFn>,
        LIRError,
    >)
        ensures
            match signatures(ds@, ds@.len()) {
                Ok(v) => r matches Ok(x) && view_fn_decls(x@) == v,
                Err(k) => r matches Err(err) && err.ty == k,
            },
    {
        let mut out: Vec<DeclFn> = Vec::new();
        let mut i: usize = 0;
        assert(view_fn_decls(out@) =~= Seq::empty());
        while i < ds.len()
            invariant
                i <= ds.len(),
                signatures(ds@, i as nat) == Ok::<Seq<DeclFnView>, LIRErrorType>(
                    view_fn_decls(out@),
                ),
            decreases ds.len() - i,
        {
            match DeclFn::of_decl(&ds[i], names) {
                Ok(Some(s)) => {
                    assert(view_fn_decls(out@.push(s)) =~= view_fn_decls(out@).push(s@));
                    out.push(s);
                },
                Ok(None) => {},
                Err(err) => {
                    proof {
                        lemma_signatures_fails(ds@, (i + 1) as nat, ds@.len());
                    }
                    return Err(err);
                },
            }
            i = i + 1;
        }
        Ok(out)
    }

    /// The function table of a file: the signatures of all its functions,
    /// followed once more by those of the functions it defines.
    pub fn function_table(ds: &Vec<ast::TopLevelDecl>, names: &NameResolveMap) -> (r: Result<
        Vec<DeclFn>,
        LIRError,
    >)
        ensures
            match module_table(ds@) {
                Ok(v) => r matches Ok(x) && table_of(view_fn_decls(x@)) == v,
                Err(k) => r matches Err(err) && err.ty == k,
            },
    {
        let mut out = match Module::signatures(ds, names) {
            Ok(sigs) => sigs,
            Err(err) => {
                return Err(err);
            },
        };
        let ghost sigs = view_fn_decls(out@);
        let ghost none = Seq::<DeclFnView>::empty();
        let mut i: usize = 0;
        assert(sigs + none =~= sigs);
        let ghost mut defs = none;
        while i < ds.len()
            invariant
                i <= ds.len(),
                signatures(ds@, ds@.len()) == Ok::<Seq<DeclFnView>, LIRErrorType>(sigs),
                def_signatures(ds@, i as nat) == Ok::<Seq<DeclFnView>, LIRErrorType>(defs),
                view_fn_decls(out@) == sigs + defs,
            decreases ds.len() - i,
        {
            match DeclFn::of_def(&ds[i], names) {
                Ok(Some(s)) => {
                    assert(view_fn_decls(out@.push(s)) =~= view_fn_decls(out@).push(s@));
                    assert((sigs + defs).push(s@) =~= sigs + defs.push(s@));
                    out.push(s);
                    proof {
                        defs = defs.push(s@);
                    }
                },
                Ok(None) => {},
                Err(err) => {
                    proof {
                        lemma_def_signatures_fails(ds@, (i + 1) as nat, ds@.len());
                    }
                    return Err(err);
                },
            }
            i = i + 1;
        }
        Ok(out)
    }

    /// Lowers a file: an ordered list of top-level declarations, of which
    /// at most one is the program entry point. Every function of the file
    /// can be called from every body, also from one that comes before it.
    pub fn from_ast(name: Ident, tl_decls: Vec<ast::TopLevelDecl>) -> (r: Result<Module, LIRError>)
        requires
            entries(tl_decls@, tl_decls@.len()) <= 1,
        ensures
            match lower_module(name@, tl_decls@) {
                Ok(v) => r matches Ok(x) && x@ == v,
                Err(k) => r matches Err(err) && err.ty == k,
            },
    {
        let names = NameResolveMap::new();
        let fn_decls = match Module::signatures(&tl_decls, &names) {
            Ok(sigs) => sigs,
            Err(err) => {
                return Err(err);
            },
        };
        let table = match Module::function_table(&tl_decls, &names) {
            Ok(t) => t,
            Err(err) => {
                return Err(err);
            },
        };
        let mut builder = ModuleBuilder::new(table);
        let ghost ms0 = builder@;
        let mut i: usize = 0;
        while i < tl_decls.len()
            invariant
                i <= tl_decls.len(),
                signatures(tl_decls@, tl_decls@.len()) == Ok::<Seq<DeclFnView>, LIRErrorType>(
                    view_fn_decls(fn_decls@),
                ),
                module_table(tl_decls@).is_ok(),
                ms0 == initial_state(module_table(tl_decls@).unwrap()),
                lower_defs(tl_decls@, i as nat, ms0) == Ok::<
                    ModuleState,
                    (LIRErrorType, ModuleState),
                >(builder@),
                entries(tl_decls@, tl_decls@.len()) <= 1,
                builder@.entry.is_some() ==> entries(tl_decls@, i as nat) >= 1,
            decreases tl_decls.len() - i,
        {
            proof {
                lemma_entries_grow(tl_decls@, (i + 1) as nat, tl_decls@.len());
            }
            match builder.lower_def(&tl_decls[i]) {
                Ok(()) => {},
                Err(err) => {
                    proof {
                        lemma_lower_defs_fails(tl_decls@, (i + 1) as nat, tl_decls@.len(), ms0);
                    }
                    return Err(err);
                },
            }
            i = i + 1;
        }
        Ok(
            Module {
                name,
                fn_decls,
                fn_defs: builder.fn_defs,
                consts: builder.ctx.consts,
                entry: builder.entry,
            },
        )
    }
}

} // verus!
