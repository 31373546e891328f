use lokc::lir::{Decl, DeclFn};
use lokc::scope::{NameResolveMap, StackScope};
use lokc::types::{Ident, Primitive, Type};

fn decl(name: &str, p: Primitive) -> Decl {
    Decl { name: Ident::Local(name.to_string()), mutable: false, ty: Type::Primitive(p) }
}

fn sig(name: &str, returns: Option<Primitive>) -> DeclFn {
    DeclFn {
        id: Ident::UnmangledItem(name.to_string()),
        params: vec![],
        varadic: false,
        returns: returns.map(Type::Primitive),
    }
}

#[test]
fn scope_keeps_last_binding_of_a_name() {
    let mut s = StackScope::new();
    assert_eq!(s.get(&"x".to_string()), None);
    s.insert("x".to_string(), decl("x", Primitive::I8));
    s.insert("y".to_string(), decl("y", Primitive::I16));
    s.insert("x".to_string(), decl("x", Primitive::I32));
    assert_eq!(s.get(&"x".to_string()), Some(&decl("x", Primitive::I32)));
    assert_eq!(s.get(&"y".to_string()), Some(&decl("y", Primitive::I16)));
    assert_eq!(s.get(&"z".to_string()), None);
}

#[test]
fn innermost_declaration_wins_and_closing_reverts() {
    let mut names = NameResolveMap::new();
    let x = "x".to_string();
    assert_eq!(names.resolve_var(&x), None);
    names.push_scope();
    names.declare(x.clone(), decl("x", Primitive::I8));
    assert_eq!(names.resolve_var(&x), Some(&decl("x", Primitive::I8)));
    names.push_scope();
    assert_eq!(names.resolve_var(&x), Some(&decl("x", Primitive::I8)));
    names.declare(x.clone(), decl("x", Primitive::U64));
    names.declare("y".to_string(), decl("y", Primitive::Bool));
    assert_eq!(names.resolve_var(&x), Some(&decl("x", Primitive::U64)));
    names.pop_scope();
    assert_eq!(names.resolve_var(&x), Some(&decl("x", Primitive::I8)));
    assert_eq!(names.resolve_var(&"y".to_string()), None);
    names.pop_scope();
    assert_eq!(names.resolve_var(&x), None);
    names.pop_scope();
    assert_eq!(names.resolve_var(&x), None);
}

#[test]
fn declaring_without_scope_does_nothing() {
    let mut names = NameResolveMap::new();
    names.declare("x".to_string(), decl("x", Primitive::I8));
    assert_eq!(names.resolve_var(&"x".to_string()), None);
    assert!(names.scope_stack.is_empty());
}

#[test]
fn only_bare_names_resolve() {
    let mut names = NameResolveMap::new();
    names.push_scope();
    names.declare("x".to_string(), decl("x", Primitive::I8));
    assert_eq!(names.resolve_var_default(&vec!["x".to_string()]), Some(decl("x", Primitive::I8)));
    assert_eq!(names.resolve_var_default(&vec!["x".to_string(), "x".to_string()]), None);
    assert_eq!(names.resolve_var_default(&vec![]), None);
}

#[test]
fn function_table_is_flat_and_last_entry_wins() {
    let mut names = NameResolveMap::new();
    names.set_functions(vec![
        sig("f", Some(Primitive::I8)),
        sig("g", None),
        sig("f", Some(Primitive::I64)),
    ]);
    names.push_scope();
    let f = Ident::UnmangledItem("f".to_string());
    assert_eq!(names.resolve_fn(&f), Some(&sig("f", Some(Primitive::I64))));
    assert_eq!(names.resolve_fn_default(&vec!["g".to_string()]), Some(&sig("g", None)));
    assert_eq!(names.resolve_fn_default(&vec!["h".to_string()]), None);
    assert_eq!(names.resolve_fn_default(&vec!["f".to_string(), "g".to_string()]), None);
    assert_eq!(names.resolve_fn_default(&vec![]), None);
    assert_eq!(names.resolve_fn(&Ident::Local("f".to_string())), None);
    names.pop_scope();
    assert_eq!(names.resolve_fn(&f), Some(&sig("f", Some(Primitive::I64))));
}
