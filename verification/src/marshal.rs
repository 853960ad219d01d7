//! Encoding script values into argument cells, and decoding result buffers
//! into script values.

use crate::bigint::{wrap_u64, BigInt};
use crate::bytes::{layout, lemma_number_bound, number, read, store, ByteOrder};
use crate::error::{Fault, FfiError, SlotFault};
use crate::number::{wrap_i32, wrap_u32, Number, NAN_BITS};
use crate::tag::{lemma_sizes, Descriptor, TypeTag};
use crate::value::{ScriptValue, Value};
use vstd::arithmetic::power2::lemma2_to64;
use vstd::prelude::*;

verus! {

broadcast use vstd::layout::layout_of_primitives;

/// The native representation of one argument: as many bytes as its slot's
/// type occupies, laid out as the platform reads them.
#[derive(Clone, Debug, PartialEq, Eq)]
pub struct ArgumentCell {
    pub bytes: Vec<u8>,
}

impl View for ArgumentCell {
    type V = Seq<u8>;

    open spec fn view(&self) -> Seq<u8> {
        self.bytes@
    }
}

/// The number that the script's rules of coercion make of a value:
/// "undefined" becomes "not a number", null becomes zero, a number stays
/// what it is. Values of other shapes have no number.
pub open spec fn coerced(value: Value) -> Option<Number> {
    match value {
        Value::Number(number) => Some(number),
        Value::Undefined => Some(Number { bits: NAN_BITS }),
        Value::Null => Some(Number { bits: 0 }),
        _ => None,
    }
}

/// The address that a value passes into a pointer slot.
///
/// A big integer is a raw address, taken modulo the width of the platform's
/// addresses. A typed view passes the start of its buffer plus its offset,
/// a buffer its start, null the address zero; where a sum or a start is no
/// address of the platform, and for every other shape, there is none.
pub open spec fn address(value: Value) -> Option<nat> {
    match value {
        Value::BigInt(n) => Some((n % (usize::MAX + 1)) as nat),
        Value::TypedView { base, byte_offset } => if base + byte_offset <= usize::MAX {
            Some(base + byte_offset)
        } else {
            None
        },
        Value::Buffer { base } => if base <= usize::MAX {
            Some(base)
        } else {
            None
        },
        Value::Null => Some(0),
        _ => None,
    }
}

/// The unsigned number whose bytes fill a slot of type `tag` when `value`
/// is passed into it.
///
/// Integer slots of up to 32 bits take the whole part of the coerced number
/// modulo their width. The 64-bit slots take a big integer modulo `2^64`;
/// any other value is first brought into the 32-bit range, unsigned or
/// signed as the slot is, and then widened. The two IEEE slots take the
/// pattern of the coerced number, narrowed for binary32. A pointer slot takes
/// an address. No value can be passed into a `void` slot.
pub open spec fn payload(tag: TypeTag, value: Value) -> Result<nat, SlotFault> {
    match tag {
        TypeTag::Void => Err(SlotFault::InvalidSignature),
        TypeTag::U8 | TypeTag::I8 | TypeTag::U16 | TypeTag::I16 | TypeTag::U32 | TypeTag::I32 => {
            match coerced(value) {
                Some(number) => Ok((number.integer() % tag.modulus()) as nat),
                None => Err(SlotFault::UnsupportedArgumentShape),
            }
        },
        TypeTag::U64 => match value {
            Value::BigInt(n) => Ok(wrap_u64(n) as nat),
            _ => match coerced(value) {
                Some(number) => Ok(wrap_u32(number.integer()) as nat),
                None => Err(SlotFault::UnsupportedArgumentShape),
            },
        },
        TypeTag::I64 => match value {
            Value::BigInt(n) => Ok(wrap_u64(n) as nat),
            _ => match coerced(value) {
                Some(number) => Ok(wrap_u64(wrap_i32(number.integer()) as int) as nat),
                None => Err(SlotFault::UnsupportedArgumentShape),
            },
        },
        TypeTag::F32 => match coerced(value) {
            Some(number) => Ok(number.narrowed() as nat),
            None => Err(SlotFault::UnsupportedArgumentShape),
        },
        TypeTag::F64 => match coerced(value) {
            Some(number) => Ok(number.bits as nat),
            None => Err(SlotFault::UnsupportedArgumentShape),
        },
        TypeTag::Pointer => match address(value) {
            Some(target) => Ok(target),
            None => Err(SlotFault::UnsupportedArgumentShape),
        },
    }
}

/// The bytes of the cell that encodes `value` for a slot of type `tag`.
pub open spec fn encoding(tag: TypeTag, value: Value, order: ByteOrder) -> Result<
    Seq<u8>,
    SlotFault,
> {
    match payload(tag, value) {
        Ok(filling) => Ok(layout(filling, tag.size(), order)),
        Err(fault) => Err(fault),
    }
}

/// The number in `-modulus/2 .. modulus/2` that the unsigned number stands
/// for in two's complement.
pub open spec fn signed(unsigned: nat, modulus: int) -> int {
    if 2 * unsigned >= modulus {
        unsigned - modulus
    } else {
        unsigned as int
    }
}

/// The script value that the leading bytes of a result buffer stand for,
/// read as a value of type `tag`.
///
/// Integers of up to 32 bits become numbers, 64-bit integers and pointers
/// become big integers, the two IEEE formats become numbers, binary32 being
/// widened. `void` gives "undefined" whatever the bytes are.
pub open spec fn decoding(tag: TypeTag, bytes: Seq<u8>, order: ByteOrder) -> Value {
    let raw = number(bytes.take(tag.size() as int), order);
    match tag {
        TypeTag::U8 | TypeTag::U16 | TypeTag::U32 => Value::Number(Number::of_integer(raw as int)),
        TypeTag::I8 | TypeTag::I16 | TypeTag::I32 => Value::Number(
            Number::of_integer(signed(raw, tag.modulus())),
        ),
        TypeTag::U64 | TypeTag::Pointer => Value::BigInt(raw as int),
        TypeTag::I64 => Value::BigInt(signed(raw, tag.modulus())),
        TypeTag::F32 => Value::Number(Number::widened(raw as u32)),
        TypeTag::F64 => Value::Number(Number { bits: raw as u64 }),
        TypeTag::Void => Value::Undefined,
    }
}

/// What decoding a result buffer gives: the value of its leading bytes, or
/// the failure if the buffer holds fewer bytes than the type occupies.
pub open spec fn checked_decoding(tag: TypeTag, bytes: Seq<u8>, order: ByteOrder) -> Result<
    Value,
    Fault,
> {
    if bytes.len() >= tag.size() {
        Ok(decoding(tag, bytes, order))
    } else {
        Err(Fault::BufferTooSmall { needed: tag.size(), found: bytes.len() })
    }
}

/// The number a value is coerced to, where it has one.
fn coerce(value: &ScriptValue) -> (number: Option<Number>)
    ensures
        number == coerced(value@),
{
    match value {
        ScriptValue::Number(number) => Some(*number),
        ScriptValue::Undefined => Some(Number { bits: NAN_BITS }),
        ScriptValue::Null => Some(Number { bits: 0 }),
        _ => None,
    }
}

/// The address a value passes into a pointer slot, where it has one.
fn address_of(value: &ScriptValue) -> (target: Option<u64>)
    ensures
        match address(value@) {
            Some(a) => target == Some(a as u64) && a <= usize::MAX,
            None => target.is_none(),
        },
{
    let widest: u64 = usize::MAX as u64;
    match value {
        ScriptValue::BigInt(big) => {
            let raw: u64 = big.low_u64();
            assert((wrap_u64(big@) as int) % (usize::MAX + 1) == big@ % (usize::MAX + 1));
            if raw <= widest {
                Some(raw)
            } else {
                Some(raw % (widest + 1))
            }
        },
        ScriptValue::TypedView { base, byte_offset } => match base.checked_add(*byte_offset) {
            Some(sum) => if sum <= widest {
                Some(sum)
            } else {
                None
            },
            None => None,
        },
        ScriptValue::Buffer { base } => if *base <= widest {
            Some(*base)
        } else {
            None
        },
        ScriptValue::Null => Some(0),
        _ => None,
    }
}

/// The number whose bytes fill the slot.
fn filling(tag: TypeTag, value: &ScriptValue) -> (filled: Result<u64, SlotFault>)
    ensures
        match payload(tag, value@) {
            Ok(p) => filled == Ok::<u64, SlotFault>(p as u64) && p < tag.modulus(),
            Err(fault) => filled == Err::<u64, SlotFault>(fault),
        },
{
    match tag {
        TypeTag::Void => Err(SlotFault::InvalidSignature),
        TypeTag::U8 | TypeTag::I8 => match coerce(value) {
            Some(number) => Ok((number.to_uint32() % 0x100) as u64),
            None => Err(SlotFault::UnsupportedArgumentShape),
        },
        TypeTag::U16 | TypeTag::I16 => match coerce(value) {
            Some(number) => Ok((number.to_uint32() % 0x1_0000) as u64),
            None => Err(SlotFault::UnsupportedArgumentShape),
        },
        TypeTag::U32 | TypeTag::I32 => match coerce(value) {
            Some(number) => Ok(number.to_uint32() as u64),
            None => Err(SlotFault::UnsupportedArgumentShape),
        },
        TypeTag::U64 => match value {
            ScriptValue::BigInt(big) => Ok(big.low_u64()),
            _ => match coerce(value) {
                Some(number) => Ok(number.to_uint32() as u64),
                None => Err(SlotFault::UnsupportedArgumentShape),
            },
        },
        TypeTag::I64 => match value {
            ScriptValue::BigInt(big) => Ok(big.low_u64()),
            _ => match coerce(value) {
                Some(number) => {
                    let narrow: i32 = number.to_int32();
                    if narrow < 0 {
                        Ok((narrow as i128 + 0x1_0000_0000_0000_0000) as u64)
                    } else {
                        Ok(narrow as u64)
                    }
                },
                None => Err(SlotFault::UnsupportedArgumentShape),
            },
        },
        TypeTag::F32 => match coerce(value) {
            Some(number) => Ok(number.to_single() as u64),
            None => Err(SlotFault::UnsupportedArgumentShape),
        },
        TypeTag::F64 => match coerce(value) {
            Some(number) => Ok(number.bits),
            None => Err(SlotFault::UnsupportedArgumentShape),
        },
        TypeTag::Pointer => match address_of(value) {
            Some(target) => Ok(target),
            None => Err(SlotFault::UnsupportedArgumentShape),
        },
    }
}

/// Encodes one argument for its slot.
///
/// The cell holds exactly as many bytes as the slot's type occupies. A
/// `void` slot is refused as an invalid signature, and a value that has no
/// encoding for the slot's classification as an unsupported shape. For a
/// pointer slot only an address is encoded; nothing is copied.
pub fn encode(descriptor: &Descriptor, value: &ScriptValue, order: ByteOrder) -> (encoded: Result<
    ArgumentCell,
    SlotFault,
>)
    ensures
        match encoding(descriptor@, value@, order) {
            Ok(bytes) => encoded matches Ok(cell) && cell@ == bytes,
            Err(fault) => encoded matches Err(found) && found == fault,
        },
{
    match filling(descriptor.tag(), value) {
        Ok(filled) => Ok(ArgumentCell { bytes: store(filled, descriptor.size(), order) }),
        Err(fault) => Err(fault),
    }
}

/// Decodes a result buffer as a value of the result type.
///
/// Only the leading bytes that the type occupies are read. A buffer with
/// fewer bytes than that is refused.
pub fn decode(descriptor: &Descriptor, buffer: &Vec<u8>, order: ByteOrder) -> (decoded: Result<
    ScriptValue,
    FfiError,
>)
    ensures
        match checked_decoding(descriptor@, buffer@, order) {
            Ok(expected) => decoded matches Ok(value) && value@ == expected
                && value.is_canonical(),
            Err(fault) => decoded matches Err(error) && error@ == fault,
        },
{
    let size: usize = descriptor.size();
    let tag: TypeTag = descriptor.tag();
    if buffer.len() < size {
        return Err(FfiError::BufferTooSmall { needed: size, found: buffer.len() });
    }
    proof {
        lemma_sizes(tag);
        lemma_number_bound(buffer@.take(size as int), order);
        lemma2_to64();
    }
    let raw: u64 = read(buffer, size, order);
    let value = match tag {
        TypeTag::U8 | TypeTag::U16 | TypeTag::U32 => ScriptValue::Number(
            Number::from_u32(raw as u32),
        ),
        TypeTag::I8 => ScriptValue::Number(
            Number::from_i32(
                if raw >= 0x80 {
                    raw as i32 - 0x100
                } else {
                    raw as i32
                },
            ),
        ),
        TypeTag::I16 => ScriptValue::Number(
            Number::from_i32(
                if raw >= 0x8000 {
                    raw as i32 - 0x1_0000
                } else {
                    raw as i32
                },
            ),
        ),
        TypeTag::I32 => ScriptValue::Number(
            Number::from_i32(
                if raw >= 0x8000_0000 {
                    (raw as i64 - 0x1_0000_0000) as i32
                } else {
                    raw as i32
                },
            ),
        ),
        TypeTag::U64 | TypeTag::Pointer => ScriptValue::BigInt(BigInt::from_u64(raw)),
        TypeTag::I64 => ScriptValue::BigInt(
            BigInt::from_i64(
                if raw >= 0x8000_0000_0000_0000 {
                    (raw as i128 - 0x1_0000_0000_0000_0000) as i64
                } else {
                    raw as i64
                },
            ),
        ),
        TypeTag::F32 => ScriptValue::Number(Number::from_single(raw as u32)),
        TypeTag::F64 => ScriptValue::Number(Number { bits: raw }),
        TypeTag::Void => ScriptValue::Undefined,
    };
    Ok(value)
}

} // verus!
