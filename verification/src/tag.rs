//! Type tags and the descriptors they resolve to.

use crate::error::{Fault, FfiError};
use vstd::arithmetic::power2::{lemma2_to64, pow2};
use vstd::prelude::*;
use vstd::string::StrSliceExecFns;

verus! {

broadcast use vstd::layout::layout_of_primitives;

/// One of the twelve native representations that a signature can name.
#[derive(Clone, Copy, Debug, PartialEq, Eq, Structural)]
pub enum TypeTag {
    U8,
    I8,
    U16,
    I16,
    U32,
    I32,
    U64,
    I64,
    F32,
    F64,
    Pointer,
    Void,
}

/// What a slot reads of the argument passed into it. An embedding program
/// needs to ask the script runtime for no more than this.
#[derive(Clone, Copy, Debug, PartialEq, Eq, Structural)]
pub enum Reading {
    /// The number that the value is coerced to.
    Number,
    /// The big integer, if the value is one; otherwise the number that the
    /// value is coerced to.
    BigIntOrNumber,
    /// The address that the value passes.
    Address,
    /// Nothing: no value can be passed.
    Nothing,
}

impl TypeTag {
    /// What a slot of this type reads of its argument.
    pub open spec fn reads(self) -> Reading {
        match self {
            TypeTag::U8
            | TypeTag::I8
            | TypeTag::U16
            | TypeTag::I16
            | TypeTag::U32
            | TypeTag::I32
            | TypeTag::F32
            | TypeTag::F64 => Reading::Number,
            TypeTag::U64 | TypeTag::I64 => Reading::BigIntOrNumber,
            TypeTag::Pointer => Reading::Address,
            TypeTag::Void => Reading::Nothing,
        }
    }

    /// What a slot of this type reads of its argument.
    pub fn reading(self) -> (reading: Reading)
        ensures
            reading == self.reads(),
    {
        match self {
            TypeTag::U8
            | TypeTag::I8
            | TypeTag::U16
            | TypeTag::I16
            | TypeTag::U32
            | TypeTag::I32
            | TypeTag::F32
            | TypeTag::F64 => Reading::Number,
            TypeTag::U64 | TypeTag::I64 => Reading::BigIntOrNumber,
            TypeTag::Pointer => Reading::Address,
            TypeTag::Void => Reading::Nothing,
        }
    }

    /// The symbolic name by which a declaration refers to this tag.
    pub open spec fn name(self) -> Seq<char> {
        match self {
            TypeTag::U8 => seq!['u', '8'],
            TypeTag::I8 => seq!['i', '8'],
            TypeTag::U16 => seq!['u', '1', '6'],
            TypeTag::I16 => seq!['i', '1', '6'],
            TypeTag::U32 => seq!['u', '3', '2'],
            TypeTag::I32 => seq!['i', '3', '2'],
            TypeTag::U64 => seq!['u', '6', '4'],
            TypeTag::I64 => seq!['i', '6', '4'],
            TypeTag::F32 => seq!['f', '3', '2'],
            TypeTag::F64 => seq!['f', '6', '4'],
            TypeTag::Pointer => seq!['p', 'o', 'i', 'n', 't', 'e', 'r'],
            TypeTag::Void => seq!['v', 'o', 'i', 'd'],
        }
    }

    /// The tag that a name stands for, if it is one of the twelve.
    pub open spec fn named(name: Seq<char>) -> Option<TypeTag> {
        if name == TypeTag::U8.name() {
            Some(TypeTag::U8)
        } else if name == TypeTag::I8.name() {
            Some(TypeTag::I8)
        } else if name == TypeTag::U16.name() {
            Some(TypeTag::U16)
        } else if name == TypeTag::I16.name() {
            Some(TypeTag::I16)
        } else if name == TypeTag::U32.name() {
            Some(TypeTag::U32)
        } else if name == TypeTag::I32.name() {
            Some(TypeTag::I32)
        } else if name == TypeTag::U64.name() {
            Some(TypeTag::U64)
        } else if name == TypeTag::I64.name() {
            Some(TypeTag::I64)
        } else if name == TypeTag::F32.name() {
            Some(TypeTag::F32)
        } else if name == TypeTag::F64.name() {
            Some(TypeTag::F64)
        } else if name == TypeTag::Pointer.name() {
            Some(TypeTag::Pointer)
        } else if name == TypeTag::Void.name() {
            Some(TypeTag::Void)
        } else {
            None
        }
    }

    /// The number of bytes a value of this type occupies. A pointer is as
    /// wide as the platform's addresses; `void` occupies one byte, so that
    /// a result buffer is never empty.
    pub open spec fn size(self) -> nat {
        match self {
            TypeTag::U8 | TypeTag::I8 | TypeTag::Void => 1,
            TypeTag::U16 | TypeTag::I16 => 2,
            TypeTag::U32 | TypeTag::I32 | TypeTag::F32 => 4,
            TypeTag::U64 | TypeTag::I64 | TypeTag::F64 => 8,
            TypeTag::Pointer => vstd::layout::size_of::<usize>(),
        }
    }

    /// The number of distinct byte patterns of a value of this type: 256 to
    /// the power of its size.
    pub open spec fn modulus(self) -> int {
        match self {
            TypeTag::U8 | TypeTag::I8 | TypeTag::Void => 0x100,
            TypeTag::U16 | TypeTag::I16 => 0x1_0000,
            TypeTag::U32 | TypeTag::I32 | TypeTag::F32 => 0x1_0000_0000,
            TypeTag::U64 | TypeTag::I64 | TypeTag::F64 => 0x1_0000_0000_0000_0000,
            TypeTag::Pointer => usize::MAX + 1,
        }
    }

    /// The alignment the platform asks of a value of this type. The two
    /// IEEE formats are aligned as the unsigned integers of their width.
    pub open spec fn alignment(self) -> nat {
        match self {
            TypeTag::U8 => vstd::layout::align_of::<u8>(),
            TypeTag::I8 => vstd::layout::align_of::<i8>(),
            TypeTag::U16 => vstd::layout::align_of::<u16>(),
            TypeTag::I16 => vstd::layout::align_of::<i16>(),
            TypeTag::U32 | TypeTag::F32 => vstd::layout::align_of::<u32>(),
            TypeTag::I32 => vstd::layout::align_of::<i32>(),
            TypeTag::U64 | TypeTag::F64 => vstd::layout::align_of::<u64>(),
            TypeTag::I64 => vstd::layout::align_of::<i64>(),
            TypeTag::Pointer => vstd::layout::align_of::<usize>(),
            TypeTag::Void => 1,
        }
    }

    /// The descriptor of this tag on the platform the program runs on.
    pub fn descriptor(self) -> (descriptor: Descriptor)
        ensures
            descriptor@ == self,
    {
        let (size, alignment): (usize, usize) = match self {
            TypeTag::U8 => (1, core::mem::align_of::<u8>()),
            TypeTag::I8 => (1, core::mem::align_of::<i8>()),
            TypeTag::U16 => (2, core::mem::align_of::<u16>()),
            TypeTag::I16 => (2, core::mem::align_of::<i16>()),
            TypeTag::U32 | TypeTag::F32 => (4, core::mem::align_of::<u32>()),
            TypeTag::I32 => (4, core::mem::align_of::<i32>()),
            TypeTag::U64 | TypeTag::F64 => (8, core::mem::align_of::<u64>()),
            TypeTag::I64 => (8, core::mem::align_of::<i64>()),
            TypeTag::Pointer => (core::mem::size_of::<usize>(), core::mem::align_of::<usize>()),
            TypeTag::Void => (1, 1),
        };
        Descriptor { tag: self, size, alignment }
    }

    /// Looks a symbolic name up in the fixed vocabulary.
    pub fn from_name(name: &str) -> (tag: Option<TypeTag>)
        ensures
            tag == TypeTag::named(name@),
    {
        proof {
            lemma_vocabulary();
        }
        let n: usize = name.unicode_len();
        if n == 2 {
            let c0 = name.get_char(0);
            let c1 = name.get_char(1);
            assert(name@ =~= seq![c0, c1]);
            if c1 != '8' {
                None
            } else if c0 == 'u' {
                Some(TypeTag::U8)
            } else if c0 == 'i' {
                Some(TypeTag::I8)
            } else {
                None
            }
        } else if n == 3 {
            let c0 = name.get_char(0);
            let c1 = name.get_char(1);
            let c2 = name.get_char(2);
            assert(name@ =~= seq![c0, c1, c2]);
            if c1 == '1' && c2 == '6' {
                if c0 == 'u' {
                    Some(TypeTag::U16)
                } else if c0 == 'i' {
                    Some(TypeTag::I16)
                } else {
                    None
                }
            } else if c1 == '3' && c2 == '2' {
                if c0 == 'u' {
                    Some(TypeTag::U32)
                } else if c0 == 'i' {
                    Some(TypeTag::I32)
                } else if c0 == 'f' {
                    Some(TypeTag::F32)
                } else {
                    None
                }
            } else if c1 == '6' && c2 == '4' {
                if c0 == 'u' {
                    Some(TypeTag::U64)
                } else if c0 == 'i' {
                    Some(TypeTag::I64)
                } else if c0 == 'f' {
                    Some(TypeTag::F64)
                } else {
                    None
                }
            } else {
                None
            }
        } else if n == 4 {
            let c0 = name.get_char(0);
            let c1 = name.get_char(1);
            let c2 = name.get_char(2);
            let c3 = name.get_char(3);
            assert(name@ =~= seq![c0, c1, c2, c3]);
            if c0 == 'v' && c1 == 'o' && c2 == 'i' && c3 == 'd' {
                Some(TypeTag::Void)
            } else {
                None
            }
        } else if n == 7 {
            let c0 = name.get_char(0);
            let c1 = name.get_char(1);
            let c2 = name.get_char(2);
            let c3 = name.get_char(3);
            let c4 = name.get_char(4);
            let c5 = name.get_char(5);
            let c6 = name.get_char(6);
            assert(name@ =~= seq![c0, c1, c2, c3, c4, c5, c6]);
            if c0 == 'p' && c1 == 'o' && c2 == 'i' && c3 == 'n' && c4 == 't' && c5 == 'e' && c6
                == 'r' {
                Some(TypeTag::Pointer)
            } else {
                None
            }
        } else {
            None
        }
    }
}

/// The sizes are the standard widths, and a pointer is four or eight bytes
/// wide; the modulus of each type is 256 to the power of its size.
pub proof fn lemma_sizes(tag: TypeTag)
    ensures
        tag.size() == 1 || tag.size() == 2 || tag.size() == 4 || tag.size() == 8,
        tag.modulus() == pow2(8 * tag.size()),
        TypeTag::Pointer.size() * 8 == usize::BITS,
{
    lemma2_to64();
}

/// How long each name of the vocabulary is, and that the names tell the tags
/// apart.
pub proof fn lemma_vocabulary()
    ensures
        TypeTag::U8.name().len() == 2,
        TypeTag::I8.name().len() == 2,
        TypeTag::U16.name().len() == 3,
        TypeTag::I16.name().len() == 3,
        TypeTag::U32.name().len() == 3,
        TypeTag::I32.name().len() == 3,
        TypeTag::U64.name().len() == 3,
        TypeTag::I64.name().len() == 3,
        TypeTag::F32.name().len() == 3,
        TypeTag::F64.name().len() == 3,
        TypeTag::Void.name().len() == 4,
        TypeTag::Pointer.name().len() == 7,
        forall|tag: TypeTag| TypeTag::named(#[trigger] tag.name()) == Some(tag),
        forall|name: Seq<char>, tag: TypeTag|
            TypeTag::named(name) == Some(tag) ==> name == tag.name(),
{
    assert forall|tag: TypeTag| TypeTag::named(#[trigger] tag.name()) == Some(tag) by {
        let name = tag.name();
        assert(name.len() >= 2);
        let a = name[0];
        let b = name[1];
        assert(TypeTag::U8.name()[0] == 'u' && TypeTag::U8.name()[1] == '8');
        assert(TypeTag::I8.name()[0] == 'i' && TypeTag::I8.name()[1] == '8');
        assert(TypeTag::U16.name()[0] == 'u' && TypeTag::U16.name()[1] == '1');
        assert(TypeTag::I16.name()[0] == 'i' && TypeTag::I16.name()[1] == '1');
        assert(TypeTag::U32.name()[0] == 'u' && TypeTag::U32.name()[1] == '3');
        assert(TypeTag::I32.name()[0] == 'i' && TypeTag::I32.name()[1] == '3');
        assert(TypeTag::U64.name()[0] == 'u' && TypeTag::U64.name()[1] == '6');
        assert(TypeTag::I64.name()[0] == 'i' && TypeTag::I64.name()[1] == '6');
        assert(TypeTag::F32.name()[0] == 'f' && TypeTag::F32.name()[1] == '3');
        assert(TypeTag::F64.name()[0] == 'f' && TypeTag::F64.name()[1] == '6');
        assert(TypeTag::Pointer.name()[0] == 'p');
        assert(TypeTag::Void.name()[0] == 'v');
    }
}

/// The resolved form of a type tag: its classification with the byte size
/// and alignment that go with it on this platform.
#[derive(Clone, Copy, Debug, PartialEq, Eq)]
pub struct Descriptor {
    tag: TypeTag,
    size: usize,
    alignment: usize,
}

impl View for Descriptor {
    type V = TypeTag;

    closed spec fn view(&self) -> TypeTag {
        self.tag
    }
}

impl Descriptor {
    #[verifier::type_invariant]
    spec fn inv(self) -> bool {
        &&& self.size == self.tag.size()
        &&& self.alignment == self.tag.alignment()
    }

    /// The classification that encoding and decoding switch on.
    pub fn tag(&self) -> (tag: TypeTag)
        ensures
            tag == self@,
    {
        self.tag
    }

    /// The alignment of a value of this type.
    pub fn alignment(&self) -> (alignment: usize)
        ensures
            alignment == self@.alignment(),
    {
        proof {
            use_type_invariant(self);
        }
        self.alignment
    }

    /// The byte size of a value of this type.
    pub fn size(&self) -> (size: usize)
        ensures
            size == self@.size(),
    {
        proof {
            use_type_invariant(self);
        }
        self.size
    }
}

/// A type specification as a declaration supplies it: a symbolic name, or
/// something that is not a name at all.
#[derive(Clone, Debug, PartialEq, Eq)]
pub enum TypeSpec {
    Name(String),
    Other,
}

impl TypeSpec {
    /// What a specification resolves to: the tag that its name stands for,
    /// the failure if the name is unknown, and `void` for anything that is
    /// not a name.
    pub open spec fn resolved(self) -> Result<TypeTag, Fault> {
        match self {
            TypeSpec::Name(name) => match TypeTag::named(name@) {
                Some(tag) => Ok(tag),
                None => Err(Fault::UnknownType(name@)),
            },
            TypeSpec::Other => Ok(TypeTag::Void),
        }
    }
}

/// Resolves a type specification to its descriptor.
///
/// A name of the vocabulary gives the descriptor of its tag. Any other name
/// is refused as an unknown type. A specification that is not a name at all
/// is not refused: it resolves to `void`.
pub fn to_ffi_type(spec: &TypeSpec) -> (resolved: Result<Descriptor, FfiError>)
    ensures
        match spec.resolved() {
            Ok(tag) => resolved matches Ok(descriptor) && descriptor@ == tag,
            Err(fault) => resolved matches Err(error) && error@ == fault,
        },
{
    match spec {
        TypeSpec::Name(name) => match TypeTag::from_name(name.as_str()) {
            Some(tag) => Ok(tag.descriptor()),
            None => Err(FfiError::UnknownType(name.clone())),
        },
        TypeSpec::Other => Ok(TypeTag::Void.descriptor()),
    }
}

} // verus!
