//! Bound symbols and the two halves of a call.

use script_ffi::{
    ffi_function, BigInt, ByteOrder, Declaration, FfiError, Invocation, Number, ScriptValue,
    Symbol, TypeSpec, TypeTag,
};

const LE: ByteOrder = ByteOrder::LittleEndian;

fn named(name: &str) -> TypeSpec {
    TypeSpec::Name(String::from(name))
}

fn declaration(result: &str, parameters: &[&str]) -> Declaration {
    Declaration { result: named(result), parameters: parameters.iter().map(|p| named(p)).collect() }
}

fn number(x: f64) -> ScriptValue {
    ScriptValue::Number(Number { bits: x.to_bits() })
}

fn bound(result: &str, parameters: &[&str]) -> Symbol {
    ffi_function("f", 0x4000, &declaration(result, parameters), LE).expect("a valid declaration")
}

#[test]
fn ffi_function_pairs_address_and_interface() {
    let symbol: Symbol =
        ffi_function("add", 0xdead_beef, &declaration("i32", &["i32", "i32"]), LE).unwrap();
    assert_eq!(symbol.name(), "add");
    assert_eq!(symbol.address(), 0xdead_beef);
    assert_eq!(symbol.interface().result().tag(), TypeTag::I32);
    assert_eq!(symbol.interface().parameter_count(), 2);
    assert_eq!(symbol.interface().parameters()[0].tag(), TypeTag::I32);
    assert_eq!(symbol.interface().parameters()[1].tag(), TypeTag::I32);
    assert_eq!(symbol.interface().order(), LE);
}

#[test]
fn ffi_function_refuses_unknown_types() {
    let error: FfiError =
        ffi_function("f", 1, &declaration("i32", &["i32", "long"]), LE).unwrap_err();
    assert_eq!(error, FfiError::UnknownType(String::from("long")));
    let error: FfiError = ffi_function("f", 1, &declaration("int", &["long"]), LE).unwrap_err();
    assert_eq!(error, FfiError::UnknownType(String::from("int")));
}

#[test]
fn ffi_function_takes_non_names_as_void() {
    let def: Declaration = Declaration { result: TypeSpec::Other, parameters: vec![] };
    let symbol: Symbol = ffi_function("f", 1, &def, LE).unwrap();
    assert_eq!(symbol.interface().result().tag(), TypeTag::Void);
}

#[test]
fn begin_call_encodes_one_cell_per_parameter_in_order() {
    let symbol: Symbol = bound("u32", &["u8", "i16", "u32", "f64"]);
    let arguments: Vec<ScriptValue> = vec![number(1.0), number(-2.0), number(3.0), number(4.5)];
    let call: Invocation = symbol.begin_call(&arguments).unwrap();
    assert_eq!(call.target, 0x4000);
    assert_eq!(call.cells.len(), 4);
    assert_eq!(call.cells[0].bytes, vec![1]);
    assert_eq!(call.cells[1].bytes, vec![0xfe, 0xff]);
    assert_eq!(call.cells[2].bytes, vec![3, 0, 0, 0]);
    assert_eq!(call.cells[3].bytes, 4.5f64.to_le_bytes().to_vec());
    assert_eq!(call.result, vec![0, 0, 0, 0]);
}

#[test]
fn result_buffer_has_the_size_of_the_result_type() {
    for (name, size) in [("u8", 1usize), ("i16", 2), ("f32", 4), ("u64", 8), ("f64", 8), ("void", 1)] {
        let call: Invocation = bound(name, &[]).begin_call(&Vec::new()).unwrap();
        assert_eq!(call.result, vec![0u8; size], "{}", name);
    }
    let call: Invocation = bound("pointer", &[]).begin_call(&Vec::new()).unwrap();
    assert_eq!(call.result.len(), std::mem::size_of::<usize>());
}

#[test]
fn missing_arguments_are_undefined() {
    let symbol: Symbol = bound("void", &["u32", "i32", "f64"]);
    let call: Invocation = symbol.begin_call(&vec![number(9.0)]).unwrap();
    assert_eq!(call.cells.len(), 3);
    assert_eq!(call.cells[0].bytes, vec![9, 0, 0, 0]);
    assert_eq!(call.cells[1].bytes, vec![0, 0, 0, 0]);
    assert!(f64::from_le_bytes(call.cells[2].bytes.clone().try_into().unwrap()).is_nan());
    // A missing argument for a pointer is no address.
    let symbol: Symbol = bound("void", &["u32", "pointer"]);
    assert_eq!(
        symbol.begin_call(&vec![number(9.0)]),
        Err(FfiError::UnsupportedArgumentShape(1))
    );
}

#[test]
fn extra_arguments_are_ignored() {
    let symbol: Symbol = bound("void", &["u8"]);
    let call: Invocation = symbol
        .begin_call(&vec![number(7.0), ScriptValue::Other, ScriptValue::Buffer { base: 1 }])
        .unwrap();
    assert_eq!(call.cells.len(), 1);
    assert_eq!(call.cells[0].bytes, vec![7]);
}

#[test]
fn the_first_argument_that_cannot_be_encoded_fails_the_call() {
    let symbol: Symbol = bound("void", &["u8", "pointer", "void", "pointer"]);
    let arguments: Vec<ScriptValue> =
        vec![number(1.0), number(2.0), number(3.0), ScriptValue::Other];
    assert_eq!(symbol.begin_call(&arguments), Err(FfiError::UnsupportedArgumentShape(1)));
    let arguments: Vec<ScriptValue> =
        vec![number(1.0), ScriptValue::Null, number(3.0), ScriptValue::Other];
    assert_eq!(symbol.begin_call(&arguments), Err(FfiError::InvalidSignature(2)));
    // The symbol stays usable.
    let symbol: Symbol = bound("void", &["u8", "pointer"]);
    assert!(symbol.begin_call(&vec![number(1.0), ScriptValue::Other]).is_err());
    assert!(symbol.begin_call(&vec![number(1.0), ScriptValue::Null]).is_ok());
}

#[test]
fn finish_call_decodes_the_result() {
    let symbol: Symbol = bound("i32", &[]);
    assert_eq!(symbol.finish_call(&vec![0xfe, 0xff, 0xff, 0xff]), Ok(number(-2.0)));
    let symbol: Symbol = bound("u64", &[]);
    assert_eq!(
        symbol.finish_call(&vec![5, 0, 0, 0, 0, 0, 0, 0]),
        Ok(ScriptValue::BigInt(BigInt { negative: false, words: vec![5] }))
    );
    assert_eq!(
        symbol.finish_call(&vec![5, 0, 0, 0]),
        Err(FfiError::BufferTooSmall { needed: 8, found: 4 })
    );
}

#[test]
fn void_function_without_parameters_takes_any_arguments() {
    let symbol: Symbol = bound("void", &[]);
    let argument_lists: [Vec<ScriptValue>; 4] = [
        vec![],
        vec![number(1.0)],
        vec![ScriptValue::Other, ScriptValue::Undefined, ScriptValue::Null],
        vec![ScriptValue::TypedView { base: u64::MAX, byte_offset: u64::MAX }; 20],
    ];
    for arguments in argument_lists.iter() {
        let call: Invocation = symbol.begin_call(arguments).unwrap();
        assert!(call.cells.is_empty());
        assert_eq!(call.result, vec![0]);
        assert_eq!(symbol.finish_call(&call.result), Ok(ScriptValue::Undefined));
        assert_eq!(symbol.finish_call(&vec![0x5a]), Ok(ScriptValue::Undefined));
    }
}

#[test]
fn identity_of_a_null_pointer() {
    let native: ByteOrder = ByteOrder::native();
    let symbol: Symbol =
        ffi_function("id", 0x1000, &declaration("pointer", &["pointer"]), native).unwrap();
    let call: Invocation = symbol.begin_call(&vec![ScriptValue::Null]).unwrap();
    assert_eq!(call.cells.len(), 1);
    assert!(call.cells[0].bytes.iter().all(|b| *b == 0));
    // An identity function leaves its argument in the result buffer.
    let returned: Vec<u8> = call.cells[0].bytes.clone();
    assert_eq!(
        symbol.finish_call(&returned),
        Ok(ScriptValue::BigInt(BigInt { negative: false, words: vec![] }))
    );
}

#[test]
fn big_endian_interface_lays_out_big_endian() {
    let symbol: Symbol = ffi_function(
        "f",
        1,
        &declaration("u16", &["u32"]),
        ByteOrder::BigEndian,
    )
    .unwrap();
    let call: Invocation = symbol.begin_call(&vec![number(0x0102_0304 as f64)]).unwrap();
    assert_eq!(call.cells[0].bytes, vec![1, 2, 3, 4]);
    assert_eq!(symbol.finish_call(&vec![0x12, 0x34]), Ok(number(0x1234 as f64)));
}
