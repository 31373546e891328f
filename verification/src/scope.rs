//! Name resolution: lexically nested scopes of local declarations, and the
//! flat table of functions.

use vstd::prelude::*;
use crate::lir::{Decl, DeclFn, DeclFnView, DeclView};
use crate::types::{Ident, IdentView};

verus! {

/// The finite map that a list of bindings denotes: a later binding of a key
/// replaces an earlier one.
pub open spec fn bindings_map<K, V>(bs: Seq<(K, V)>) -> Map<K, V>
    decreases bs.len(),
{
    if bs.len() == 0 {
        Map::empty()
    } else {
        bindings_map(bs.drop_last()).insert(bs.last().0, bs.last().1)
    }
}

/// A key is bound exactly if some binding in the list has it, and it is then
/// bound to the value of the last such binding.
pub proof fn lemma_bindings_lookup<K, V>(bs: Seq<(K, V)>, k: K)
    ensures
        bindings_map(bs).contains_key(k) <==> exists|i: int| 0 <= i < bs.len() && bs[i].0 == k,
        forall|i: int|
            0 <= i < bs.len() && bs[i].0 == k && (forall|j: int| i < j < bs.len() ==> bs[j].0 != k)
                ==> bindings_map(bs)[k] == bs[i].1,
    decreases bs.len(),
{
    if bs.len() > 0 {
        let front = bs.drop_last();
        lemma_bindings_lookup(front, k);
        if bs.last().0 == k {
            assert(bs[bs.len() - 1].0 == k);
        } else {
            assert forall|i: int| 0 <= i < bs.len() && bs[i].0 == k implies 0 <= i < front.len()
                && front[i].0 == k by {}
            assert forall|i: int|
                0 <= i < bs.len() && bs[i].0 == k && (forall|j: int|
                    i < j < bs.len() ==> bs[j].0 != k) implies bindings_map(bs)[k] == bs[i].1 by {
                assert(forall|j: int| i < j < front.len() ==> front[j].0 == bs[j].0);
            }
            if bindings_map(front).contains_key(k) {
                let i = choose|i: int| 0 <= i < front.len() && front[i].0 == k;
                assert(bs[i].0 == k);
            }
        }
    }
}

/// The declarations of one lexical scope.
#[derive(Debug)]
pub struct StackScope {
    /// Bindings in the order they were made.
    pub vars: Vec<(String, Decl)>,
}

impl StackScope {
    /// The bindings of the scope as pairs of models.
    pub open spec fn bindings(&self) -> Seq<(Seq<char>, DeclView)> {
        Seq::new(self.vars@.len(), |i: int| (self.vars@[i].0@, self.vars@[i].1@))
    }
}

impl View for StackScope {
    type V = Map<Seq<char>, DeclView>;

    open spec fn view(&self) -> Map<Seq<char>, DeclView> {
        bindings_map(self.bindings())
    }
}

impl StackScope {
    /// A scope that declares nothing.
    pub fn new() -> (r: StackScope)
        ensures
            r@ == Map::<Seq<char>, DeclView>::empty(),
    {
        StackScope { vars: Vec::new() }
    }

    /// Binds `name`, replacing what the scope bound it to before.
    pub fn insert(&mut self, name: String, decl: Decl)
        ensures
            final(self)@ == old(self)@.insert(name@, decl@),
    {
        self.vars.push((name, decl));
        proof {
            assert(self.bindings().drop_last() =~= old(self).bindings());
        }
    }

    /// The declaration that the scope binds `name` to, if any.
    pub fn get(&self, name: &String) -> (r: Option<&Decl>)
        ensures
            match r {
                Some(d) => self@.contains_key(name@) && d@ == self@[name@],
                None => !self@.contains_key(name@),
            },
    {
        let mut i: usize = self.vars.len();
        while i > 0
            invariant
                i <= self.vars.len(),
                forall|j: int| i <= j < self.vars.len() ==> self.vars@[j].0@ != name@,
            decreases i,
        {
            i = i - 1;
            if self.vars[i].0 == *name {
                proof {
                    lemma_bindings_lookup(self.bindings(), name@);
                    assert(self.bindings()[i as int].0 == name@);
                }
                return Some(&self.vars[i].1);
            }
        }
        proof {
            lemma_bindings_lookup(self.bindings(), name@);
        }
        None
    }
}

/// The innermost declaration of `name` in a stack of scopes whose last
/// element is the innermost scope.
pub open spec fn resolve_in(scopes: Seq<Map<Seq<char>, DeclView>>, name: Seq<char>) -> Option<
    DeclView,
>
    decreases scopes.len(),
{
    if scopes.len() == 0 {
        None
    } else if scopes.last().contains_key(name) {
        Some(scopes.last()[name])
    } else {
        resolve_in(scopes.drop_last(), name)
    }
}

/// Mathematical model of a [`NameResolveMap`].
pub struct NamesView {
    /// The function table.
    pub fns: Map<IdentView, DeclFnView>,
    /// The scope stack, innermost scope last.
    pub scopes: Seq<Map<Seq<char>, DeclView>>,
}

impl NamesView {
    /// The state after a scope is opened.
    pub open spec fn push_scope(self) -> NamesView {
        NamesView { scopes: self.scopes.push(Map::empty()), ..self }
    }

    /// The state after the innermost scope is closed.
    pub open spec fn pop_scope(self) -> NamesView {
        if self.scopes.len() == 0 {
            self
        } else {
            NamesView { scopes: self.scopes.drop_last(), ..self }
        }
    }

    /// The state after `name` is declared in the innermost scope. With no
    /// scope open there is nowhere to declare it, and nothing changes.
    pub open spec fn declare(self, name: Seq<char>, decl: DeclView) -> NamesView {
        if self.scopes.len() == 0 {
            self
        } else {
            NamesView {
                scopes: self.scopes.update(
                    self.scopes.len() - 1,
                    self.scopes.last().insert(name, decl),
                ),
                ..self
            }
        }
    }

    /// The declaration that a variable name resolves to.
    pub open spec fn resolve_var(self, name: Seq<char>) -> Option<DeclView> {
        resolve_in(self.scopes, name)
    }

    /// The declaration that a possibly qualified variable name resolves to:
    /// only a bare name resolves.
    pub open spec fn resolve_var_path(self, path: Seq<String>) -> Option<DeclView> {
        if path.len() == 1 {
            self.resolve_var(path[0]@)
        } else {
            None
        }
    }

    /// The signature that a function identifier resolves to.
    pub open spec fn resolve_fn(self, id: IdentView) -> Option<DeclFnView> {
        if self.fns.contains_key(id) {
            Some(self.fns[id])
        } else {
            None
        }
    }

    /// The signature that a possibly qualified function name resolves to:
    /// only a bare name resolves, to the item of that name.
    pub open spec fn resolve_fn_path(self, path: Seq<String>) -> Option<DeclFnView> {
        if path.len() == 1 {
            self.resolve_fn(IdentView::UnmangledItem(path[0]@))
        } else {
            None
        }
    }
}

/// The state after a list of declarations is made in the innermost scope,
/// in order.
pub open spec fn declare_all(names: NamesView, decls: Seq<(Seq<char>, DeclView)>) -> NamesView
    decreases decls.len(),
{
    if decls.len() == 0 {
        names
    } else {
        declare_all(names, decls.drop_last()).declare(decls.last().0, decls.last().1)
    }
}

/// A name resolves to the declaration that was last made of it in the
/// innermost scope, whatever the outer scopes hold.
pub proof fn law_declaration_shadows(names: NamesView, name: Seq<char>, decl: DeclView)
    requires
        names.scopes.len() > 0,
    ensures
        names.declare(name, decl).resolve_var(name) == Some(decl),
        names.push_scope().declare(name, decl).resolve_var(name) == Some(decl),
{
}

/// Declaring a name leaves the resolution of every other name as it was.
pub proof fn law_declaration_is_local(
    names: NamesView,
    name: Seq<char>,
    decl: DeclView,
    other: Seq<char>,
)
    requires
        other != name,
    ensures
        names.declare(name, decl).resolve_var(other) == names.resolve_var(other),
{
    if names.scopes.len() > 0 {
        let after = names.declare(name, decl);
        assert(after.scopes.drop_last() =~= names.scopes.drop_last());
    }
}

/// Declarations never change the number of open scopes, nor any scope but
/// the innermost.
pub proof fn lemma_declare_all_frame(names: NamesView, decls: Seq<(Seq<char>, DeclView)>)
    ensures
        declare_all(names, decls).fns == names.fns,
        declare_all(names, decls).scopes.len() == names.scopes.len(),
        declare_all(names, decls).scopes.drop_last() == names.scopes.drop_last(),
    decreases decls.len(),
{
    if decls.len() > 0 {
        lemma_declare_all_frame(names, decls.drop_last());
        let before = declare_all(names, decls.drop_last());
        let after = before.declare(decls.last().0, decls.last().1);
        if before.scopes.len() > 0 {
            assert(after.scopes.drop_last() =~= before.scopes.drop_last());
        }
    }
}

/// When a scope is closed, every name resolves as it did before the scope
/// was opened: to the outer declaration, or to nothing if there is none.
/// What was declared in the scope is gone.
pub proof fn law_scope_close_reverts(
    names: NamesView,
    inner: Seq<(Seq<char>, DeclView)>,
    name: Seq<char>,
)
    ensures
        declare_all(names.push_scope(), inner).pop_scope() == names,
        declare_all(names.push_scope(), inner).pop_scope().resolve_var(name) == names.resolve_var(
            name,
        ),
{
    lemma_declare_all_frame(names.push_scope(), inner);
    let opened = names.push_scope();
    assert(opened.scopes.drop_last() =~= names.scopes);
}

/// The function table that a list of signatures denotes: each is entered
/// under its identifier, a later one replacing an earlier one.
pub open spec fn fn_table(fns: Seq<DeclFn>) -> Map<IdentView, DeclFnView> {
    bindings_map(Seq::new(fns.len(), |i: int| (fns[i].id@, fns[i]@)))
}

/// The models of a stack of scopes, scope by scope.
pub open spec fn view_scopes(scopes: Seq<StackScope>) -> Seq<Map<Seq<char>, DeclView>> {
    Seq::new(scopes.len(), |i: int| scopes[i]@)
}

/// The names visible while a module is lowered.
#[derive(Debug)]
pub struct NameResolveMap {
    /// Signatures in the order they were entered.
    pub local_fns: Vec<DeclFn>,
    /// Innermost scope last.
    pub scope_stack: Vec<StackScope>,
}

impl View for NameResolveMap {
    type V = NamesView;

    open spec fn view(&self) -> NamesView {
        NamesView { fns: fn_table(self.local_fns@), scopes: view_scopes(self.scope_stack@) }
    }
}

impl NameResolveMap {
    /// No function and no scope.
    pub fn new() -> (r: NameResolveMap)
        ensures
            r@.fns == Map::<IdentView, DeclFnView>::empty(),
            r@.scopes == Seq::<Map<Seq<char>, DeclView>>::empty(),
    {
        let r = NameResolveMap { local_fns: Vec::new(), scope_stack: Vec::new() };
        assert(r@.scopes =~= Seq::empty());
        r
    }

    /// Replaces the function table by the one that `fns` denotes.
    pub fn set_functions(&mut self, fns: Vec<DeclFn>)
        ensures
            final(self)@.fns == fn_table(fns@),
            final(self)@.scopes == old(self)@.scopes,
    {
        self.local_fns = fns;
    }

    /// Opens a scope.
    pub fn push_scope(&mut self)
        ensures
            final(self)@ == old(self)@.push_scope(),
    {
        self.scope_stack.push(StackScope::new());
        assert(self@.scopes =~= old(self)@.scopes.push(Map::empty()));
    }

    /// Opens a scope that already holds declarations.
    pub fn push_filled_scope(&mut self, scope: StackScope)
        ensures
            final(self)@.fns == old(self)@.fns,
            final(self)@.scopes == old(self)@.scopes.push(scope@),
    {
        self.scope_stack.push(scope);
        assert(self@.scopes =~= old(self)@.scopes.push(scope@));
    }

    /// Closes the innermost scope, if there is one.
    pub fn pop_scope(&mut self)
        ensures
            final(self)@ == old(self)@.pop_scope(),
    {
        let _ = self.scope_stack.pop();
        proof {
            if old(self).scope_stack@.len() > 0 {
                assert(self@.scopes =~= old(self)@.scopes.drop_last());
            } else {
                assert(self@.scopes =~= old(self)@.scopes);
            }
        }
    }

    /// Declares `name` in the innermost scope, shadowing any outer
    /// declaration of the same name. Does nothing while no scope is open.
    pub fn declare(&mut self, name: String, decl: Decl)
        ensures
            final(self)@ == old(self)@.declare(name@, decl@),
    {
        let ghost top_before = self.scope_stack@.last()@;
        match self.scope_stack.pop() {
            Some(mut top) => {
                top.insert(name, decl);
                self.scope_stack.push(top);
                assert(self@.scopes =~= old(self)@.scopes.update(
                    old(self)@.scopes.len() - 1,
                    top_before.insert(name@, decl@),
                ));
            },
            None => {
                assert(self@.scopes =~= old(self)@.scopes);
            },
        }
    }

    /// The innermost declaration of a variable.
    pub fn resolve_var(&self, name: &String) -> (r: Option<&Decl>)
        ensures
            match r {
                Some(d) => self@.resolve_var(name@) == Some(d@),
                None => self@.resolve_var(name@).is_none(),
            },
    {
        let mut i: usize = self.scope_stack.len();
        assert(self@.scopes.take(i as int) =~= self@.scopes);
        while i > 0
            invariant
                i <= self.scope_stack.len(),
                self@.resolve_var(name@) == resolve_in(self@.scopes.take(i as int), name@),
            decreases i,
        {
            i = i - 1;
            assert(self@.scopes.take(i + 1).drop_last() =~= self@.scopes.take(i as int));
            assert(self@.scopes.take(i + 1).last() == self.scope_stack@[i as int]@);
            match self.scope_stack[i].get(name) {
                Some(d) => {
                    return Some(d);
                },
                None => {},
            }
        }
        None
    }

    /// The signature of the function with the given identifier.
    pub fn resolve_fn(&self, id: &Ident) -> (r: Option<&DeclFn>)
        ensures
            match r {
                Some(d) => self@.resolve_fn(id@) == Some(d@),
                None => self@.resolve_fn(id@).is_none(),
            },
    {
        let ghost bs = Seq::new(
            self.local_fns@.len(),
            |i: int| (self.local_fns@[i].id@, self.local_fns@[i]@),
        );
        let mut i: usize = self.local_fns.len();
        while i > 0
            invariant
                i <= self.local_fns.len(),
                bs == Seq::new(
                    self.local_fns@.len(),
                    |i: int| (self.local_fns@[i].id@, self.local_fns@[i]@),
                ),
                forall|j: int| i <= j < self.local_fns.len() ==> self.local_fns@[j].id@ != id@,
            decreases i,
        {
            i = i - 1;
            if self.local_fns[i].id.same(id) {
                proof {
                    lemma_bindings_lookup(bs, id@);
                    assert(bs[i as int].0 == id@);
                }
                return Some(&self.local_fns[i]);
            }
        }
        proof {
            lemma_bindings_lookup(bs, id@);
        }
        None
    }

    /// The signature that a possibly qualified function name denotes.
    pub fn resolve_fn_default(&self, name: &Vec<String>) -> (r: Option<&DeclFn>)
        ensures
            match r {
                Some(d) => self@.resolve_fn_path(name@) == Some(d@),
                None => self@.resolve_fn_path(name@).is_none(),
            },
    {
        if name.len() == 1 {
            let id = Ident::UnmangledItem(name[0].clone());
            self.resolve_fn(&id)
        } else {
            None
        }
    }

    /// The declaration that a possibly qualified variable name denotes.
    pub fn resolve_var_default(&self, name: &Vec<String>) -> (r: Option<Decl>)
        ensures
            match r {
                Some(d) => self@.resolve_var_path(name@) == Some(d@),
                None => self@.resolve_var_path(name@).is_none(),
            },
    {
        if name.len() == 1 {
            match self.resolve_var(&name[0]) {
                Some(d) => Some(d.clone()),
                None => None,
            }
        } else {
            None
        }
    }
}

} // verus!
