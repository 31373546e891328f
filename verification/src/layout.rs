//! How the types of the language are laid out on a target: the widths of
//! the primitives and the shape of pointers.

use vstd::prelude::*;
use crate::types::{Primitive, Type, TypeView};

verus! {

/// What the layout of types depends on.
#[derive(Debug, Clone, Copy, PartialEq, Eq, Structural)]
pub struct Target {
    /// The width of a pointer in bits.
    pub pointer_bits: u32,
    /// Whether the operating system is Windows, where `long` has 32 bits
    /// whatever the width of a pointer is.
    pub windows: bool,
}

/// The type of a value in the backend.
#[derive(Debug, PartialEq, Eq)]
pub enum MachineType {
    /// An integer of the given width in bits.
    Int(u32),
    /// A pointer to a value of the given type.
    Pointer(Box<MachineType>),
    /// A length, as an integer as wide as a pointer, followed by a pointer
    /// to values of the given type.
    FatPointer(Box<MachineType>),
}

/// The width in bits of a primitive on a target. The widths of `short`,
/// `int` and `long long` are those of every common data model; that of
/// `long` is 32 on Windows and the width of a pointer elsewhere.
pub open spec fn primitive_bits(p: Primitive, target: Target) -> u32 {
    match p {
        Primitive::Bool => 1,
        Primitive::I8 | Primitive::U8 | Primitive::CChar => 8,
        Primitive::I16 | Primitive::U16 | Primitive::CShort => 16,
        Primitive::I32 | Primitive::U32 | Primitive::CInt => 32,
        Primitive::I64 | Primitive::U64 | Primitive::CLLong => 64,
        Primitive::CLong => if target.windows {
            32
        } else {
            target.pointer_bits
        },
    }
}

/// The type in the backend of a value of the given type; none for the
/// types that have no layout yet: arrays, slices, tuples, named types and
/// `Never`.
pub open spec fn machine_type(t: TypeView, target: Target) -> Option<MachineType>
    decreases t,
{
    match t {
        TypeView::Primitive(p) => Some(MachineType::Int(primitive_bits(p, target))),
        TypeView::PtrConst(t) | TypeView::PtrMut(t) => match machine_type(*t, target) {
            Some(m) => Some(MachineType::Pointer(Box::new(m))),
            None => None,
        },
        TypeView::PtrDynConst(t) | TypeView::PtrDynMut(t) => match machine_type(*t, target) {
            Some(m) => Some(MachineType::FatPointer(Box::new(m))),
            None => None,
        },
        _ => None,
    }
}

impl Primitive {
    /// The width in bits of the primitive on a target.
    pub fn bits(self, target: &Target) -> (r: u32)
        ensures
            r == primitive_bits(self, *target),
    {
        match self {
            Primitive::Bool => 1,
            Primitive::I8 | Primitive::U8 | Primitive::CChar => 8,
            Primitive::I16 | Primitive::U16 | Primitive::CShort => 16,
            Primitive::I32 | Primitive::U32 | Primitive::CInt => 32,
            Primitive::I64 | Primitive::U64 | Primitive::CLLong => 64,
            Primitive::CLong => if target.windows {
                32
            } else {
                target.pointer_bits
            },
        }
    }
}

impl Type {
    /// The type in the backend of a value of this type, if it has a layout.
    pub fn get_type(&self, target: &Target) -> (r: Option<MachineType>)
        ensures
            r == machine_type(self@, *target),
        decreases self,
    {
        match self {
            Type::Primitive(p) => Some(MachineType::Int(p.bits(target))),
            Type::PtrConst(t) | Type::PtrMut(t) => match (**t).get_type(target) {
                Some(m) => Some(MachineType::Pointer(Box::new(m))),
                None => None,
            },
            Type::PtrDynConst(t) | Type::PtrDynMut(t) => match (**t).get_type(target) {
                Some(m) => Some(MachineType::FatPointer(Box::new(m))),
                None => None,
            },
            _ => None,
        }
    }
}

/// The number of bytes before the first `-` of a byte string, or the
/// length of the string if it has none.
pub open spec fn first_dash(s: Seq<u8>) -> int
    decreases s.len(),
{
    if s.len() == 0 || s[0] == 45u8 {
        0
    } else {
        1 + first_dash(s.skip(1))
    }
}

/// The field with index `k` of a byte string that is split at every `-`.
pub open spec fn field(s: Seq<u8>, k: nat) -> Option<Seq<u8>>
    decreases k,
{
    let d = first_dash(s);
    if k == 0 {
        Some(s.take(d))
    } else if d >= s.len() {
        None
    } else {
        field(s.skip(d + 1), (k - 1) as nat)
    }
}

/// The field of a target triple that names Windows: `windows`.
pub open spec fn windows_name() -> Seq<u8> {
    seq![119u8, 105u8, 110u8, 100u8, 111u8, 119u8, 115u8]
}

/// Whether a target triple names Windows as its operating system: whether
/// its third field is `windows`. None for a triple with fewer fields.
pub open spec fn triple_names_windows(triple: Seq<u8>) -> Option<bool> {
    match field(triple, 2) {
        Some(os) => Some(os == windows_name()),
        None => None,
    }
}

/// The position of the first dash is the first position that holds one.
pub proof fn lemma_first_dash_is(s: Seq<u8>, d: int)
    requires
        0 <= d <= s.len(),
        d < s.len() ==> s[d] == 45u8,
        forall|i: int| 0 <= i < d ==> s[i] != 45u8,
    ensures
        first_dash(s) == d,
    decreases s.len(),
{
    if d > 0 {
        assert(s[0] != 45u8);
        assert forall|i: int| 0 <= i < d - 1 implies s.skip(1)[i] != 45u8 by {
            assert(s.skip(1)[i] == s[i + 1]);
        }
        lemma_first_dash_is(s.skip(1), d - 1);
    }
}

/// The position of the first `-` at or after `from`, or the length of the
/// string if there is none.
pub fn find_dash(s: &Vec<u8>, from: usize) -> (r: usize)
    requires
        from <= s.len(),
    ensures
        r == from + first_dash(s@.skip(from as int)),
        from <= r <= s.len(),
{
    let mut i = from;
    while i < s.len() && s[i] != 45u8
        invariant
            from <= i <= s.len(),
            forall|j: int| from <= j < i ==> s@[j] != 45u8,
        decreases s.len() - i,
    {
        i = i + 1;
    }
    proof {
        let rest = s@.skip(from as int);
        assert forall|j: int| 0 <= j < i - from implies rest[j] != 45u8 by {
            assert(rest[j] == s@[from + j]);
        }
        lemma_first_dash_is(rest, i - from);
    }
    i
}

/// Whether the bytes from `from` up to `to` spell `windows`.
pub fn spells_windows(s: &Vec<u8>, from: usize, to: usize) -> (r: bool)
    requires
        from <= to <= s.len(),
    ensures
        r == (s@.subrange(from as int, to as int) == windows_name()),
{
    let ghost part = s@.subrange(from as int, to as int);
    if to - from != 7 {
        assert(part.len() != windows_name().len());
        return false;
    }
    let r = s[from] == 119u8 && s[from + 1] == 105u8 && s[from + 2] == 110u8 && s[from + 3]
        == 100u8 && s[from + 4] == 111u8 && s[from + 5] == 119u8 && s[from + 6] == 115u8;
    proof {
        let w = windows_name();
        assert(part[0] == s@[from + 0] && part[1] == s@[from + 1] && part[2] == s@[from + 2]
            && part[3] == s@[from + 3] && part[4] == s@[from + 4] && part[5] == s@[from + 5]
            && part[6] == s@[from + 6]);
        if r {
            assert(part =~= w);
        } else {
            assert(part[0] != w[0] || part[1] != w[1] || part[2] != w[2] || part[3] != w[3]
                || part[4] != w[4] || part[5] != w[5] || part[6] != w[6]);
        }
    }
    r
}

impl Target {
    /// The target that a triple and the width of its pointers describe.
    /// The triple has to have an operating system as its third field.
    pub fn from_triple(triple: &Vec<u8>, pointer_bits: u32) -> (r: Option<Target>)
        ensures
            r == match triple_names_windows(triple@) {
                Some(windows) => Some(Target { pointer_bits, windows }),
                None => None,
            },
    {
        let first = find_dash(triple, 0);
        assert(triple@.skip(0) =~= triple@);
        if first >= triple.len() {
            return None;
        }
        let second = find_dash(triple, first + 1);
        assert(field(triple@, 2) == field(triple@.skip(first + 1), 1));
        if second >= triple.len() {
            assert(field(triple@.skip(first + 1), 1).is_none());
            return None;
        }
        let end = find_dash(triple, second + 1);
        proof {
            let after_first = triple@.skip(first + 1);
            let after_second = triple@.skip(second + 1);
            assert(after_first.skip(second - first) =~= after_second);
            assert(field(triple@, 2) == field(after_first, 1));
            assert(field(after_first, 1) == field(after_second, 0));
            assert(after_second.take(end - second - 1) =~= triple@.subrange(
                second + 1,
                end as int,
            ));
        }
        Some(Target { pointer_bits, windows: spells_windows(triple, second + 1, end) })
    }
}

} // verus!
