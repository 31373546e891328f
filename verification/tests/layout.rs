use lokc::layout::{find_dash, spells_windows, MachineType, Target};
use lokc::types::{Ident, Primitive, Type};

fn unix64() -> Target {
    Target { pointer_bits: 64, windows: false }
}

fn win64() -> Target {
    Target { pointer_bits: 64, windows: true }
}

fn bits_of(bits: u32) -> MachineType {
    MachineType::Int(bits)
}

#[test]
fn primitive_widths() {
    let fixed = [
        (Primitive::Bool, 1),
        (Primitive::I8, 8),
        (Primitive::U8, 8),
        (Primitive::CChar, 8),
        (Primitive::I16, 16),
        (Primitive::U16, 16),
        (Primitive::CShort, 16),
        (Primitive::I32, 32),
        (Primitive::U32, 32),
        (Primitive::CInt, 32),
        (Primitive::I64, 64),
        (Primitive::U64, 64),
        (Primitive::CLLong, 64),
    ];
    for target in [unix64(), win64(), Target { pointer_bits: 32, windows: false }] {
        for (p, bits) in fixed {
            assert_eq!(p.bits(&target), bits);
            assert_eq!(Type::Primitive(p).get_type(&target), Some(bits_of(bits)));
        }
    }
}

#[test]
fn long_is_32_bits_on_windows_and_pointer_sized_elsewhere() {
    assert_eq!(Primitive::CLong.bits(&unix64()), 64);
    assert_eq!(Primitive::CLong.bits(&win64()), 32);
    assert_eq!(Primitive::CLong.bits(&Target { pointer_bits: 32, windows: false }), 32);
    assert_eq!(Primitive::CLong.bits(&Target { pointer_bits: 32, windows: true }), 32);
}

#[test]
fn pointers_and_fat_pointers() {
    let byte = || Box::new(Type::Primitive(Primitive::U8));
    let t = unix64();
    assert_eq!(Type::PtrConst(byte()).get_type(&t), Some(MachineType::Pointer(Box::new(bits_of(8)))));
    assert_eq!(Type::PtrMut(byte()).get_type(&t), Some(MachineType::Pointer(Box::new(bits_of(8)))));
    assert_eq!(
        Type::PtrDynConst(byte()).get_type(&t),
        Some(MachineType::FatPointer(Box::new(bits_of(8))))
    );
    assert_eq!(
        Type::PtrDynMut(Box::new(Type::PtrConst(byte()))).get_type(&t),
        Some(MachineType::FatPointer(Box::new(MachineType::Pointer(Box::new(bits_of(8))))))
    );
}

#[test]
fn types_without_layout() {
    let t = unix64();
    let byte = || Box::new(Type::Primitive(Primitive::U8));
    assert_eq!(Type::Never.get_type(&t), None);
    assert_eq!(Type::Slice(byte()).get_type(&t), None);
    assert_eq!(Type::Arr(byte(), 2).get_type(&t), None);
    assert_eq!(Type::Tuple(vec![]).get_type(&t), None);
    assert_eq!(Type::Name(Ident::UnmangledItem("t".to_string())).get_type(&t), None);
    assert_eq!(Type::PtrConst(Box::new(Type::Tuple(vec![]))).get_type(&t), None);
    assert_eq!(Type::PtrDynMut(Box::new(Type::Never)).get_type(&t), None);
}

#[test]
fn operating_system_is_third_field_of_triple() {
    let from = |s: &str| Target::from_triple(&s.as_bytes().to_vec(), 64);
    assert_eq!(from("x86_64-pc-windows-msvc"), Some(win64()));
    assert_eq!(from("x86_64-pc-windows"), Some(win64()));
    assert_eq!(from("x86_64-unknown-linux-gnu"), Some(unix64()));
    assert_eq!(from("aarch64-apple-darwin"), Some(unix64()));
    assert_eq!(from("windows-pc-linux"), Some(unix64()));
    assert_eq!(from("a-b-windowsx"), Some(unix64()));
    assert_eq!(from("a-b-window"), Some(unix64()));
    assert_eq!(from("a-b-Windows"), Some(unix64()));
    assert_eq!(from("a-b-"), Some(unix64()));
    assert_eq!(from("--windows"), Some(win64()));
    assert_eq!(from("--windows-"), Some(win64()));
    assert_eq!(from("--"), Some(unix64()));
    assert_eq!(from("x86_64-windows"), None);
    assert_eq!(from("windows"), None);
    assert_eq!(from(""), None);
    assert_eq!(from("-"), None);
    assert_eq!(
        Target::from_triple(&b"i686-pc-windows-gnu".to_vec(), 32),
        Some(Target { pointer_bits: 32, windows: true })
    );
}

#[test]
fn dashes_and_names() {
    let s = b"ab-cd--e".to_vec();
    assert_eq!(find_dash(&s, 0), 2);
    assert_eq!(find_dash(&s, 2), 2);
    assert_eq!(find_dash(&s, 3), 5);
    assert_eq!(find_dash(&s, 6), 6);
    assert_eq!(find_dash(&s, 7), 8);
    assert_eq!(find_dash(&s, 8), 8);
    let w = b"xwindowsx".to_vec();
    assert!(spells_windows(&w, 1, 8));
    assert!(!spells_windows(&w, 0, 7));
    assert!(!spells_windows(&w, 1, 9));
    assert!(!spells_windows(&w, 1, 7));
    assert!(!spells_windows(&w, 4, 4));
}
