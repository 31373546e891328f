use lokc::ast;
use lokc::error::LIRErrorType;
use lokc::lir::{Expression, ExpressionValue};
use lokc::lower::{integer_type_for_value, op_result_type, primitive_from_name};
use lokc::scope::NameResolveMap;
use lokc::types::{Ident, Op, Primitive, Type};

fn named(s: &str) -> ast::Type {
    ast::Type::Name(vec![s.to_string()])
}

fn resolve(t: ast::Type) -> Result<Type, LIRErrorType> {
    Type::from_ast(&t, &NameResolveMap::new()).map_err(|e| e.ty)
}

#[test]
fn every_primitive_name_resolves() {
    let table = [
        ("bool", Primitive::Bool),
        ("i8", Primitive::I8),
        ("i16", Primitive::I16),
        ("i32", Primitive::I32),
        ("i64", Primitive::I64),
        ("u8", Primitive::U8),
        ("u16", Primitive::U16),
        ("u32", Primitive::U32),
        ("u64", Primitive::U64),
        ("c_char", Primitive::CChar),
        ("c_short", Primitive::CShort),
        ("c_int", Primitive::CInt),
        ("c_long", Primitive::CLong),
        ("c_longlong", Primitive::CLLong),
    ];
    for (n, p) in table {
        assert_eq!(primitive_from_name(&n.to_string()), Some(p));
        assert_eq!(resolve(named(n)), Ok(Type::Primitive(p)));
    }
    assert_eq!(primitive_from_name(&"int".to_string()), None);
    assert_eq!(primitive_from_name(&String::new()), None);
}

#[test]
fn unknown_and_qualified_type_names_do_not_resolve() {
    assert_eq!(resolve(named("int")), Err(LIRErrorType::UnresolvedIdent));
    assert_eq!(
        resolve(ast::Type::Name(vec!["std".to_string(), "i32".to_string()])),
        Err(LIRErrorType::UnresolvedIdent)
    );
    assert_eq!(resolve(ast::Type::Name(vec![])), Err(LIRErrorType::UnresolvedIdent));
}

#[test]
fn item_type_names_resolve_to_items() {
    let names = NameResolveMap::new();
    assert_eq!(
        names.resolve_typename_default(&vec!["c_int".to_string()]),
        Some(Ident::UnmangledItem("c_int".to_string()))
    );
    assert_eq!(names.resolve_typename_default(&vec!["u8".to_string()]), None);
    assert_eq!(names.resolve_typename_default(&vec!["bool".to_string()]), None);
    assert_eq!(
        names.resolve_typename_default(&vec!["a".to_string(), "i8".to_string()]),
        None
    );
}

#[test]
fn compound_types_resolve_member_by_member() {
    let i8t = || Box::new(Type::Primitive(Primitive::I8));
    assert_eq!(resolve(ast::Type::PtrConst(Box::new(named("i8")))), Ok(Type::PtrConst(i8t())));
    assert_eq!(resolve(ast::Type::PtrMut(Box::new(named("i8")))), Ok(Type::PtrMut(i8t())));
    assert_eq!(
        resolve(ast::Type::PtrDynConst(Box::new(named("i8")))),
        Ok(Type::PtrDynConst(i8t()))
    );
    assert_eq!(resolve(ast::Type::PtrDynMut(Box::new(named("i8")))), Ok(Type::PtrDynMut(i8t())));
    assert_eq!(resolve(ast::Type::Slice(Box::new(named("i8")))), Ok(Type::Slice(i8t())));
    assert_eq!(resolve(ast::Type::Arr(Box::new(named("i8")), 4)), Ok(Type::Arr(i8t(), 4)));
    assert_eq!(
        resolve(ast::Type::Tuple(vec![named("bool"), named("u64")])),
        Ok(Type::Tuple(vec![Type::Primitive(Primitive::Bool), Type::Primitive(Primitive::U64)]))
    );
    assert_eq!(resolve(ast::Type::Tuple(vec![])), Ok(Type::Tuple(vec![])));
    assert_eq!(
        resolve(ast::Type::Tuple(vec![named("bool"), named("what")])),
        Err(LIRErrorType::UnresolvedIdent)
    );
    assert_eq!(
        resolve(ast::Type::PtrConst(Box::new(named("what")))),
        Err(LIRErrorType::UnresolvedIdent)
    );
}

#[test]
fn type_equality_and_copy_agree_with_structure() {
    let a = Type::Tuple(vec![
        Type::PtrConst(Box::new(Type::Primitive(Primitive::CChar))),
        Type::Arr(Box::new(Type::Name(Ident::UnmangledItem("t".to_string()))), 3),
        Type::Never,
    ]);
    let b = a.clone();
    assert_eq!(a, b);
    assert!(a.same(&b));
    let c = Type::Tuple(vec![
        Type::PtrConst(Box::new(Type::Primitive(Primitive::CChar))),
        Type::Arr(Box::new(Type::Name(Ident::UnmangledItem("t".to_string()))), 4),
        Type::Never,
    ]);
    assert!(!a.same(&c));
    assert!(!a.same(&Type::Tuple(vec![])));
    assert!(!Type::PtrConst(Box::new(Type::Never)).same(&Type::PtrMut(Box::new(Type::Never))));
    assert!(!Type::Name(Ident::Local("t".to_string()))
        .same(&Type::Name(Ident::UnmangledItem("t".to_string()))));
}

#[test]
fn identifiers_mangle_to_their_names() {
    assert_eq!(Ident::UnmangledItem("puts".to_string()).fn_mangle(), "puts");
    assert_eq!(Ident::Local("x".to_string()).local_mangle(), "x");
    assert_eq!(Ident::UnmangledItem("m".to_string()).mod_mangle(), "TODO");
    assert_eq!(Ident::Local("m".to_string()).mod_mangle(), "TODO");
    let a = Ident::Local("x".to_string());
    assert!(a.same(&a.clone()));
    assert!(!a.same(&Ident::UnmangledItem("x".to_string())));
    assert!(!a.same(&Ident::Local("y".to_string())));
}

#[test]
fn operator_and_literal_types() {
    assert_eq!(op_result_type(Op::Add), Primitive::I32);
    assert_eq!(op_result_type(Op::Rem), Primitive::I32);
    assert_eq!(op_result_type(Op::Eq), Primitive::Bool);
    assert_eq!(op_result_type(Op::Ge), Primitive::Bool);
    assert_eq!(integer_type_for_value(0), Type::Primitive(Primitive::I32));
    assert_eq!(integer_type_for_value(u64::MAX), Type::Primitive(Primitive::I32));
}

fn typed(t: Option<Type>) -> Expression {
    Expression { ty: t, value: ExpressionValue::ConstInt(5) }
}

#[test]
fn coercion_is_identity_on_equal_types() {
    let t = Type::Primitive(Primitive::U8);
    assert_eq!(typed(Some(t.clone())).coerce(&t), Some(typed(Some(t.clone()))));
    let p = Type::PtrConst(Box::new(Type::Primitive(Primitive::CChar)));
    assert_eq!(typed(Some(p.clone())).coerce(&p), Some(typed(Some(p.clone()))));
}

#[test]
fn coercion_widens_i32_to_c_int_and_keeps_value() {
    let i32t = Type::Primitive(Primitive::I32);
    let cint = Type::Primitive(Primitive::CInt);
    let once = typed(Some(i32t.clone())).coerce(&cint);
    assert_eq!(once, Some(typed(Some(cint.clone()))));
    let twice = once.unwrap().coerce(&cint);
    assert_eq!(twice, Some(typed(Some(cint.clone()))));
}

#[test]
fn coercion_rejects_every_other_pair() {
    let i32t = Type::Primitive(Primitive::I32);
    let cint = Type::Primitive(Primitive::CInt);
    assert_eq!(typed(Some(cint.clone())).coerce(&i32t), None);
    assert_eq!(typed(Some(i32t.clone())).coerce(&Type::Primitive(Primitive::I64)), None);
    assert_eq!(typed(Some(i32t.clone())).coerce(&Type::Primitive(Primitive::CLong)), None);
    assert_eq!(typed(Some(Type::Primitive(Primitive::I16))).coerce(&cint), None);
    assert_eq!(typed(Some(Type::Primitive(Primitive::Bool))).coerce(&i32t), None);
    assert_eq!(typed(None).coerce(&i32t), None);
    assert_eq!(typed(None).coerce(&cint), None);
}
