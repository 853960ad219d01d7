//! What holds of the library as a whole: of resolution, of encoding followed
//! by decoding, of calls, and of the binding facade.

use crate::bytes::{
    layout, lemma_layout_of_number, lemma_number_bound, lemma_number_of_layout, number, ByteOrder,
};
use crate::error::{Fault, SlotFault};
use crate::library::{Event, LibraryView, State};
use crate::marshal::{
    address, checked_decoding, coerced, decoding, encoding, payload, signed,
};
use crate::number::{lemma_narrow_widened, lemma_of_integer, wrap_i32, wrap_u32, Number};
use crate::symbol::{
    composed, encoded_arguments, prepared_call, resolved_all, Signature, SymbolView,
};
use crate::tag::{lemma_sizes, lemma_vocabulary, Reading, TypeSpec, TypeTag};
use crate::value::Value;
use vstd::arithmetic::div_mod::lemma_small_mod;
use vstd::arithmetic::power2::{lemma2_to64, pow2};
use vstd::prelude::*;

verus! {

broadcast use vstd::layout::layout_of_primitives;

/// Every name of the vocabulary resolves to its own tag, and the tag's size
/// is the platform's standard width for the type: one byte for the 8-bit
/// integers, two for the 16-bit ones, four for the 32-bit ones and binary32,
/// eight for the 64-bit ones and binary64, the width of an address for a
/// pointer.
pub proof fn law_standard_widths(spec: TypeSpec, tag: TypeTag)
    requires
        spec matches TypeSpec::Name(name) && name@ == tag.name(),
    ensures
        spec.resolved() == Ok::<TypeTag, Fault>(tag),
        tag.size() == match tag {
            TypeTag::U8 | TypeTag::I8 | TypeTag::Void => 1nat,
            TypeTag::U16 | TypeTag::I16 => 2nat,
            TypeTag::U32 | TypeTag::I32 | TypeTag::F32 => 4nat,
            TypeTag::U64 | TypeTag::I64 | TypeTag::F64 => 8nat,
            TypeTag::Pointer => (usize::BITS / 8) as nat,
        },
{
    lemma_vocabulary();
}

/// A name outside the vocabulary is refused as an unknown type, with the
/// name.
pub proof fn law_unknown_name_refused(spec: TypeSpec)
    requires
        spec is Name,
        forall|tag: TypeTag| spec->Name_0@ != tag.name(),
    ensures
        spec.resolved() == Err::<TypeTag, Fault>(Fault::UnknownType(spec->Name_0@)),
{
    lemma_vocabulary();
}

/// A specification that is no name at all is not refused: it stands for
/// `void`.
pub proof fn law_fallback_to_void(spec: TypeSpec)
    requires
        spec is Other,
    ensures
        spec.resolved() == Ok::<TypeTag, Fault>(TypeTag::Void),
{
}

/// A composed signature has one parameter type for each parameter
/// specification, in the same order, each the tag that its specification
/// resolves to; and its result type is what the result specification
/// resolves to.
pub proof fn law_signature_follows_declaration(
    result: TypeSpec,
    parameters: Seq<TypeSpec>,
    order: ByteOrder,
)
    requires
        composed(result, parameters, order) is Ok,
    ensures
        composed(result, parameters, order)->Ok_0.order == order,
        result.resolved() == Ok::<TypeTag, Fault>(composed(result, parameters, order)->Ok_0.result),
        composed(result, parameters, order)->Ok_0.parameters.len() == parameters.len(),
        forall|i: int|
            0 <= i < parameters.len() ==> (#[trigger] parameters[i]).resolved() == Ok::<
                TypeTag,
                Fault,
            >(composed(result, parameters, order)->Ok_0.parameters[i]),
{
    lemma_resolved_in_order(parameters);
}

/// Where every specification of a sequence resolves, the tags stand in the
/// order of the specifications.
pub proof fn lemma_resolved_in_order(specs: Seq<TypeSpec>)
    requires
        resolved_all(specs) is Ok,
    ensures
        resolved_all(specs)->Ok_0.len() == specs.len(),
        forall|i: int|
            0 <= i < specs.len() ==> (#[trigger] specs[i]).resolved() == Ok::<TypeTag, Fault>(
                resolved_all(specs)->Ok_0[i],
            ),
    decreases specs.len(),
{
    if specs.len() > 0 {
        lemma_resolved_in_order(specs.drop_last());
        assert forall|i: int| 0 <= i < specs.len() implies (#[trigger] specs[i]).resolved()
            == Ok::<TypeTag, Fault>(resolved_all(specs)->Ok_0[i]) by {
            if i < specs.len() - 1 {
                assert(specs.drop_last()[i] == specs[i]);
            }
        }
    }
}

/// The bytes of a cell spell the number that filled it.
pub proof fn lemma_cell_spells_payload(tag: TypeTag, filling: nat, order: ByteOrder)
    requires
        filling < tag.modulus(),
    ensures
        layout(filling, tag.size(), order).len() == tag.size(),
        number(layout(filling, tag.size(), order).take(tag.size() as int), order) == filling,
{
    let bytes = layout(filling, tag.size(), order);
    lemma_sizes(tag);
    lemma_number_of_layout(filling, tag.size(), order);
    lemma_small_mod(filling, pow2(8 * tag.size()));
    assert(bytes.take(tag.size() as int) =~= bytes);
}

/// Whether a whole number is a value of an integer type.
pub open spec fn in_range(tag: TypeTag, n: int) -> bool {
    match tag {
        TypeTag::U8 | TypeTag::U16 | TypeTag::U32 | TypeTag::U64 => 0 <= n < tag.modulus(),
        TypeTag::I8 | TypeTag::I16 | TypeTag::I32 | TypeTag::I64 => -tag.modulus() <= 2 * n
            < tag.modulus(),
        _ => false,
    }
}

/// Round trip through an integer slot of up to 32 bits: a number that is a
/// whole number in the range of the type is encoded, and the bytes of its
/// cell decode to a value that stands for the same whole number.
pub proof fn law_round_trip_small_integer(tag: TypeTag, value: Number, order: ByteOrder)
    requires
        tag.size() <= 4,
        value.is_integral(),
        in_range(tag, value.integer()),
    ensures
        encoding(tag, Value::Number(value), order) is Ok,
        decoding(tag, encoding(tag, Value::Number(value), order)->Ok_0, order).whole_number()
            == Some(value.integer()),
{
    let n = value.integer();
    let filling = payload(tag, Value::Number(value))->Ok_0;
    assert(filling == n % tag.modulus());
    lemma_cell_spells_payload(tag, filling, order);
    lemma_of_integer(n);
    let bytes = encoding(tag, Value::Number(value), order)->Ok_0;
    assert(bytes == layout(filling, tag.size(), order));
    let raw = number(bytes.take(tag.size() as int), order);
    assert(raw == filling);
    match tag {
        TypeTag::U8 | TypeTag::U16 | TypeTag::U32 => {
            assert(raw == n);
            assert(decoding(tag, bytes, order) == Value::Number(Number::of_integer(n)));
        },
        TypeTag::I8 | TypeTag::I16 | TypeTag::I32 => {
            assert(signed(raw, tag.modulus()) == n);
            assert(decoding(tag, bytes, order) == Value::Number(Number::of_integer(n)));
        },
        _ => {},
    }
}

/// Round trip through a 64-bit integer slot: a big integer in the range of
/// the type is encoded, and the bytes of its cell decode to the same big
/// integer.
pub proof fn law_round_trip_big_integer(tag: TypeTag, n: int, order: ByteOrder)
    requires
        tag == TypeTag::U64 || tag == TypeTag::I64,
        in_range(tag, n),
    ensures
        encoding(tag, Value::BigInt(n), order) is Ok,
        decoding(tag, encoding(tag, Value::BigInt(n), order)->Ok_0, order) == Value::BigInt(n),
{
    let filling = payload(tag, Value::BigInt(n))->Ok_0;
    assert(filling == n % 0x1_0000_0000_0000_0000);
    lemma_cell_spells_payload(tag, filling, order);
    let bytes = encoding(tag, Value::BigInt(n), order)->Ok_0;
    assert(bytes == layout(filling, tag.size(), order));
    let raw = number(bytes.take(tag.size() as int), order);
    assert(raw == filling);
    if tag == TypeTag::I64 {
        assert(signed(raw, tag.modulus()) == n);
    } else {
        assert(raw == n);
    }
}

/// A plain number passed into a 64-bit slot is first brought into the
/// 32-bit range, while a 64-bit result is decoded in full: the bytes of the
/// cell decode to the big integer of the number's whole part modulo `2^32`,
/// taken as unsigned or signed as the slot is. So a whole number of the
/// 32-bit range comes back as the big integer of the same value, and a
/// larger one does not.
pub proof fn law_plain_number_in_wide_slot(tag: TypeTag, value: Number, order: ByteOrder)
    requires
        tag == TypeTag::U64 || tag == TypeTag::I64,
    ensures
        encoding(tag, Value::Number(value), order) is Ok,
        decoding(tag, encoding(tag, Value::Number(value), order)->Ok_0, order) == Value::BigInt(
            if tag == TypeTag::U64 {
                wrap_u32(value.integer()) as int
            } else {
                wrap_i32(value.integer()) as int
            },
        ),
        tag == TypeTag::U64 && 0 <= value.integer() < 0x1_0000_0000 ==> decoding(
            tag,
            encoding(tag, Value::Number(value), order)->Ok_0,
            order,
        ) == Value::BigInt(value.integer()),
        tag == TypeTag::I64 && -0x8000_0000 <= value.integer() < 0x8000_0000 ==> decoding(
            tag,
            encoding(tag, Value::Number(value), order)->Ok_0,
            order,
        ) == Value::BigInt(value.integer()),
{
    let filling = payload(tag, Value::Number(value))->Ok_0;
    lemma_cell_spells_payload(tag, filling, order);
    let bytes = encoding(tag, Value::Number(value), order)->Ok_0;
    assert(bytes == layout(filling, tag.size(), order));
    let raw = number(bytes.take(tag.size() as int), order);
    assert(raw == filling);
    if tag == TypeTag::I64 {
        assert(filling == wrap_i32(value.integer()) as int % 0x1_0000_0000_0000_0000);
        assert(signed(raw, tag.modulus()) == wrap_i32(value.integer()));
    } else {
        assert(raw == wrap_u32(value.integer()));
    }
}

/// Round trip through a binary64 slot: the bytes of the cell decode to the
/// very same number.
pub proof fn law_round_trip_double(value: Number, order: ByteOrder)
    ensures
        encoding(TypeTag::F64, Value::Number(value), order) is Ok,
        decoding(
            TypeTag::F64,
            encoding(TypeTag::F64, Value::Number(value), order)->Ok_0,
            order,
        ) == Value::Number(value),
{
    lemma_cell_spells_payload(TypeTag::F64, value.bits as nat, order);
}

/// Round trip through a binary32 slot: the bytes of the cell decode to the
/// number narrowed to binary32. A number that binary32 holds exactly, that
/// is one that is the widening of a binary32 pattern other than "not a
/// number", comes back as it was.
pub proof fn law_round_trip_single(value: Number, order: ByteOrder)
    ensures
        encoding(TypeTag::F32, Value::Number(value), order) is Ok,
        decoding(
            TypeTag::F32,
            encoding(TypeTag::F32, Value::Number(value), order)->Ok_0,
            order,
        ) == Value::Number(Number::widened(value.narrowed())),
        forall|single: u32|
            value == Number::widened(single) && !#[trigger] Number::widened(single).is_nan()
                ==> decoding(
                TypeTag::F32,
                encoding(TypeTag::F32, Value::Number(value), order)->Ok_0,
                order,
            ) == Value::Number(value),
{
    lemma_cell_spells_payload(TypeTag::F32, value.narrowed() as nat, order);
    assert forall|single: u32|
        value == Number::widened(single) && !#[trigger] Number::widened(
            single,
        ).is_nan() implies value.narrowed() == single by {
        lemma_narrow_widened(single);
    }
}

/// Round trip through a pointer slot: a value that passes an address is
/// encoded, and the bytes of its cell decode to the big integer of that
/// address. Null passes the address zero; a typed view passes the start of
/// its buffer plus its offset.
pub proof fn law_round_trip_pointer(value: Value, order: ByteOrder)
    requires
        address(value) is Some,
    ensures
        encoding(TypeTag::Pointer, value, order) is Ok,
        decoding(TypeTag::Pointer, encoding(TypeTag::Pointer, value, order)->Ok_0, order)
            == Value::BigInt(address(value)->Some_0 as int),
        value is Null ==> address(value) == Some(0nat),
        value matches Value::TypedView { base, byte_offset } ==> address(value) == Some(
            base + byte_offset,
        ),
{
    lemma_cell_spells_payload(TypeTag::Pointer, address(value)->Some_0, order);
}

/// The other way round: what a result buffer decodes to, passed back into
/// a slot of the same type, is encoded as the very bytes that were decoded.
/// This holds of every type but `void`, which no argument can have; for
/// binary32 it holds unless the bytes stand for "not a number", of which
/// only the kind is kept.
pub proof fn law_decode_then_encode(tag: TypeTag, bytes: Seq<u8>, order: ByteOrder)
    requires
        tag != TypeTag::Void,
        bytes.len() >= tag.size(),
        tag == TypeTag::F32 ==> !Number::widened(
            number(bytes.take(tag.size() as int), order) as u32,
        ).is_nan(),
    ensures
        encoding(tag, decoding(tag, bytes, order), order) == Ok::<Seq<u8>, SlotFault>(
            bytes.take(tag.size() as int),
        ),
{
    let window = bytes.take(tag.size() as int);
    let raw = number(window, order);
    lemma_sizes(tag);
    lemma_number_bound(window, order);
    lemma_layout_of_number(window, order);
    lemma2_to64();
    assert(raw < tag.modulus());
    let value = decoding(tag, bytes, order);
    match tag {
        TypeTag::U8 | TypeTag::U16 | TypeTag::U32 => {
            lemma_of_integer(raw as int);
            assert(payload(tag, value) == Ok::<nat, SlotFault>(raw));
        },
        TypeTag::I8 | TypeTag::I16 | TypeTag::I32 => {
            lemma_of_integer(signed(raw, tag.modulus()));
            assert(payload(tag, value) == Ok::<nat, SlotFault>(raw));
        },
        TypeTag::F32 => {
            lemma_narrow_widened(raw as u32);
            assert(payload(tag, value) == Ok::<nat, SlotFault>(raw));
        },
        TypeTag::U64 => {
            assert(value == Value::BigInt(raw as int));
            assert(raw as int % 0x1_0000_0000_0000_0000 == raw);
            assert(payload(tag, value) == Ok::<nat, SlotFault>(raw));
        },
        TypeTag::I64 => {
            let n = signed(raw, tag.modulus());
            assert(value == Value::BigInt(n));
            assert(n % 0x1_0000_0000_0000_0000 == raw);
            assert(payload(tag, value) == Ok::<nat, SlotFault>(raw));
        },
        TypeTag::F64 => {
            assert(value == Value::Number(Number { bits: raw as u64 }));
            assert(payload(tag, value) == Ok::<nat, SlotFault>(raw));
        },
        TypeTag::Pointer => {
            assert(value == Value::BigInt(raw as int));
            assert(raw as int % (usize::MAX + 1) == raw);
            assert(address(value) == Some(raw));
            assert(payload(tag, value) == Ok::<nat, SlotFault>(raw));
        },
        TypeTag::Void => {},
    }
}

/// A slot reads of its argument what its reading says, and nothing else:
/// two values that agree in that are encoded alike. Slots that read a number
/// see only the number that the value is coerced to; the 64-bit integer
/// slots see a big integer as such and any other value by its number; a
/// pointer slot sees only the address.
pub proof fn law_slot_reads_its_reading(tag: TypeTag, first: Value, second: Value)
    requires
        match tag.reads() {
            Reading::Number => coerced(first) == coerced(second),
            Reading::BigIntOrNumber => if first is BigInt || second is BigInt {
                first == second
            } else {
                coerced(first) == coerced(second)
            },
            Reading::Address => address(first) == address(second),
            Reading::Nothing => true,
        },
    ensures
        payload(tag, first) == payload(tag, second),
{
}

/// A function declared without parameters and with a `void` result can be
/// called with any arguments whatever: the call is prepared without a cell
/// and with a result buffer of one byte, and whatever the function leaves in
/// a buffer of at least that size decodes to "undefined".
pub proof fn law_void_call(symbol: SymbolView, arguments: Seq<Value>, result: Seq<u8>)
    requires
        symbol.signature.parameters.len() == 0,
        symbol.signature.result == TypeTag::Void,
        result.len() >= 1,
    ensures
        prepared_call(symbol, arguments) == Ok::<(nat, Seq<Seq<u8>>, Seq<u8>), Fault>(
            (symbol.address, Seq::<Seq<u8>>::empty(), seq![0u8]),
        ),
        checked_decoding(symbol.signature.result, result, symbol.signature.order) == Ok::<
            Value,
            Fault,
        >(Value::Undefined),
{
    assert(Seq::new(1, |i: int| 0u8) =~= seq![0u8]);
}

/// A call encodes exactly one cell for each parameter, whatever the number
/// of arguments, and each cell is as long as its parameter's type is wide.
pub proof fn law_one_cell_per_parameter(signature: Signature, arguments: Seq<Value>, count: nat)
    requires
        count <= signature.parameters.len(),
        encoded_arguments(signature, arguments, count) is Ok,
    ensures
        encoded_arguments(signature, arguments, count)->Ok_0.len() == count,
        forall|i: int|
            0 <= i < count ==> (#[trigger] encoded_arguments(signature, arguments, count)->Ok_0[i])
                == encoding(
                signature.parameters[i],
                crate::symbol::argument(arguments, i),
                signature.order,
            )->Ok_0 && encoded_arguments(signature, arguments, count)->Ok_0[i].len()
                == signature.parameters[i].size(),
    decreases count,
{
    if count > 0 {
        law_one_cell_per_parameter(signature, arguments, (count - 1) as nat);
    }
}

/// Binding an empty symbol table never fails once the library is open: the
/// facade is bound at once, and publishes nothing.
pub proof fn law_empty_table_binds(library: LibraryView)
    requires
        library.state is Unbound,
        library.exports.len() == 0,
    ensures
        library.step(Event::Opened(true)) == (State::Bound { symbols: Seq::empty() }),
{
}

/// All or nothing: when the library lacks the symbol that is being
/// resolved, the facade fails with the name of that symbol, whatever was
/// bound before, and a failed facade holds no symbol.
pub proof fn law_missing_symbol_fails(library: LibraryView)
    requires
        library.wf(),
        library.state is Resolving,
    ensures
        library.step(Event::Resolved(0)) == (State::Failed {
            fault: Fault::SymbolNotFound(
                library.exports[library.state->Resolving_bound.len() as int].name@,
            ),
        }),
{
}

/// Every step keeps a facade well formed: what is bound is bound as
/// declared, and a bound facade holds one symbol for each entry of the
/// table.
pub proof fn law_step_keeps_well_formed(library: LibraryView, event: Event)
    requires
        library.wf(),
    ensures
        library.after(event).wf(),
{
    let next = library.after(event);
    match (library.state, event) {
        (State::Preparing { bound, pending }, Event::Prepared(status)) => {
            assert(next.bound_as_declared(bound.push(pending)));
        },
        (State::Resolving { bound }, Event::Resolved(address)) => {
            if address != 0 {
                let export = library.exports[bound.len() as int];
                if let Ok(signature) = export.declaration.composed(library.order) {
                    let pending = SymbolView {
                        name: export.name@,
                        signature,
                        address: address as nat,
                    };
                    assert(library.bound_as_declared(bound));
                    assert forall|i: int| 0 <= i < bound.push(pending).len() implies {
                        &&& (#[trigger] bound.push(pending)[i]).name == next.exports[i].name@
                        &&& next.exports[i].declaration.composed(next.order) == Ok::<
                            Signature,
                            Fault,
                        >(bound.push(pending)[i].signature)
                        &&& bound.push(pending)[i].address != 0
                    } by {
                        if i < bound.len() {
                            assert(bound.push(pending)[i] == bound[i]);
                        }
                    }
                }
            }
        },
        _ => {},
    }
}

/// A bound and a failed facade are final: no event moves them.
pub proof fn law_final_states(library: LibraryView, event: Event)
    requires
        library.state is Bound || library.state is Failed,
    ensures
        library.step(event) == library.state,
{
}

} // verus!
