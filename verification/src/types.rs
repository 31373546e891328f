//! Primitive types, resolved types and identifiers of the lowered representation.

use vstd::prelude::*;

verus! {

/// The built-in scalar types. The C aliases stay symbolic: their width is
/// chosen by the backend for the target at hand.
#[derive(Debug, Clone, Copy, Hash, PartialEq, Eq, Structural)]
pub enum Primitive {
    Bool,
    I8,
    I16,
    I32,
    I64,
    U8,
    U16,
    U32,
    U64,
    CChar,
    CShort,
    CInt,
    CLong,
    CLLong,
}

/// Binary operators, also used as the operator of a compound assignment.
#[derive(Debug, Clone, Copy, PartialEq, Eq, Structural)]
pub enum Op {
    Add,
    Sub,
    Mul,
    Div,
    Rem,
    Lt,
    Le,
    Eq,
    Ge,
    Gt,
}

/// A resolved identifier. The naming scheme is fixed when the identifier is
/// resolved and never changes afterwards.
#[derive(Debug, Hash, PartialEq, Eq)]
pub enum Ident {
    /// A stack-resident local.
    Local(String),
    /// A symbol that is emitted under its own name.
    UnmangledItem(String),
}

/// Mathematical model of an [`Ident`].
pub enum IdentView {
    Local(Seq<char>),
    UnmangledItem(Seq<char>),
}

impl View for Ident {
    type V = IdentView;

    open spec fn view(&self) -> IdentView {
        match self {
            Ident::Local(s) => IdentView::Local(s@),
            Ident::UnmangledItem(s) => IdentView::UnmangledItem(s@),
        }
    }
}

/// A resolved type.
#[derive(Debug, Hash, PartialEq, Eq)]
pub enum Type {
    Never,
    Primitive(Primitive),
    Name(Ident),
    PtrConst(Box<Type>),
    PtrMut(Box<Type>),
    PtrDynConst(Box<Type>),
    PtrDynMut(Box<Type>),
    Slice(Box<Type>),
    Arr(Box<Type>, u64),
    Tuple(Vec<Type>),
}

/// Mathematical model of a [`Type`].
pub enum TypeView {
    Never,
    Primitive(Primitive),
    Name(IdentView),
    PtrConst(Box<TypeView>),
    PtrMut(Box<TypeView>),
    PtrDynConst(Box<TypeView>),
    PtrDynMut(Box<TypeView>),
    Slice(Box<TypeView>),
    Arr(Box<TypeView>, u64),
    Tuple(Seq<TypeView>),
}

/// The model of a type.
pub open spec fn view_type(t: Type) -> TypeView
    decreases t,
{
    match t {
        Type::Never => TypeView::Never,
        Type::Primitive(p) => TypeView::Primitive(p),
        Type::Name(i) => TypeView::Name(i@),
        Type::PtrConst(t) => TypeView::PtrConst(Box::new(view_type(*t))),
        Type::PtrMut(t) => TypeView::PtrMut(Box::new(view_type(*t))),
        Type::PtrDynConst(t) => TypeView::PtrDynConst(Box::new(view_type(*t))),
        Type::PtrDynMut(t) => TypeView::PtrDynMut(Box::new(view_type(*t))),
        Type::Slice(t) => TypeView::Slice(Box::new(view_type(*t))),
        Type::Arr(t, n) => TypeView::Arr(Box::new(view_type(*t)), n),
        Type::Tuple(ts) => TypeView::Tuple(view_types(ts@)),
    }
}

/// The models of a sequence of types, element by element.
pub open spec fn view_types(ts: Seq<Type>) -> Seq<TypeView>
    decreases ts,
{
    Seq::new(
        ts.len(),
        |i: int|
            if 0 <= i < ts.len() {
                view_type(ts[i])
            } else {
                arbitrary()
            },
    )
}

impl View for Type {
    type V = TypeView;

    open spec fn view(&self) -> TypeView {
        view_type(*self)
    }
}

impl Clone for Ident {
    fn clone(&self) -> (r: Ident)
        ensures
            r@ == self@,
    {
        match self {
            Ident::Local(s) => Ident::Local(s.clone()),
            Ident::UnmangledItem(s) => Ident::UnmangledItem(s.clone()),
        }
    }
}

impl Ident {
    /// Whether two identifiers have the same scheme and the same name.
    pub fn same(&self, other: &Ident) -> (r: bool)
        ensures
            r == (self@ == other@),
    {
        match (self, other) {
            (Ident::Local(a), Ident::Local(b)) => *a == *b,
            (Ident::UnmangledItem(a), Ident::UnmangledItem(b)) => *a == *b,
            _ => false,
        }
    }
}

impl Clone for Type {
    fn clone(&self) -> (r: Type)
        ensures
            r@ == self@,
        decreases self,
    {
        match self {
            Type::Never => Type::Never,
            Type::Primitive(p) => Type::Primitive(*p),
            Type::Name(i) => Type::Name(i.clone()),
            Type::PtrConst(t) => Type::PtrConst(Box::new((**t).clone())),
            Type::PtrMut(t) => Type::PtrMut(Box::new((**t).clone())),
            Type::PtrDynConst(t) => Type::PtrDynConst(Box::new((**t).clone())),
            Type::PtrDynMut(t) => Type::PtrDynMut(Box::new((**t).clone())),
            Type::Slice(t) => Type::Slice(Box::new((**t).clone())),
            Type::Arr(t, n) => Type::Arr(Box::new((**t).clone()), *n),
            Type::Tuple(ts) => {
                let mut out: Vec<Type> = Vec::new();
                let mut i: usize = 0;
                while i < ts.len()
                    invariant
                        decreases_to!(self => ts),
                        i <= ts.len(),
                        out@.len() == i,
                        forall|j: int| 0 <= j < i ==> out@[j]@ == ts@[j]@,
                    decreases ts.len() - i,
                {
                    proof {
                        assert(decreases_to!(ts => ts[i as int]));
                    }
                    let c = ts[i].clone();
                    out.push(c);
                    i = i + 1;
                }
                assert(view_types(out@) =~= view_types(ts@));
                Type::Tuple(out)
            },
        }
    }
}

impl Type {
    /// Whether two types are the same type.
    pub fn same(&self, other: &Type) -> (r: bool)
        ensures
            r == (self@ == other@),
        decreases self,
    {
        match (self, other) {
            (Type::Never, Type::Never) => true,
            (Type::Primitive(a), Type::Primitive(b)) => *a == *b,
            (Type::Name(a), Type::Name(b)) => a.same(b),
            (Type::PtrConst(a), Type::PtrConst(b)) => (**a).same(&**b),
            (Type::PtrMut(a), Type::PtrMut(b)) => (**a).same(&**b),
            (Type::PtrDynConst(a), Type::PtrDynConst(b)) => (**a).same(&**b),
            (Type::PtrDynMut(a), Type::PtrDynMut(b)) => (**a).same(&**b),
            (Type::Slice(a), Type::Slice(b)) => (**a).same(&**b),
            (Type::Arr(a, n), Type::Arr(b, m)) => *n == *m && (**a).same(&**b),
            (Type::Tuple(a), Type::Tuple(b)) => {
                if a.len() != b.len() {
                    assert(view_types(a@).len() != view_types(b@).len());
                    return false;
                }
                let mut i: usize = 0;
                while i < a.len()
                    invariant
                        decreases_to!(self => a),
                        self@ == TypeView::Tuple(view_types(a@)),
                        other@ == TypeView::Tuple(view_types(b@)),
                        a.len() == b.len(),
                        i <= a.len(),
                        forall|j: int| 0 <= j < i ==> a@[j]@ == b@[j]@,
                    decreases a.len() - i,
                {
                    proof {
                        assert(decreases_to!(a => a[i as int]));
                    }
                    if !a[i].same(&b[i]) {
                        assert(view_types(a@)[i as int] != view_types(b@)[i as int]);
                        return false;
                    }
                    i = i + 1;
                }
                assert(view_types(a@) =~= view_types(b@));
                true
            },
            _ => false,
        }
    }
}

impl Ident {
    /// The symbol under which a function is emitted.
    pub fn fn_mangle(&self) -> (r: String)
        requires
            self is UnmangledItem,
        ensures
            r@ == self->UnmangledItem_0@,
    {
        match self {
            Ident::UnmangledItem(s) => s.clone(),
            Ident::Local(s) => s.clone(),
        }
    }

    /// The symbol under which a module is emitted. Every module is emitted
    /// under the same placeholder name.
    pub fn mod_mangle(&self) -> (r: String)
        ensures
            r@ == "TODO"@,
    {
        "TODO".to_owned()
    }

    /// The name of the stack slot of a local.
    pub fn local_mangle(&self) -> (r: String)
        requires
            self is Local,
        ensures
            r@ == self->Local_0@,
    {
        match self {
            Ident::Local(s) => s.clone(),
            Ident::UnmangledItem(s) => s.clone(),
        }
    }
}

} // verus!
