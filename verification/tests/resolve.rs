//! Resolution of type specifications, and composition of call interfaces.

use script_ffi::{
    to_ffi_type, BuildFault, ByteOrder, CallInterface, Descriptor, FfiError, PrepStatus, Reading,
    TypeSpec, TypeTag,
};

fn named(name: &str) -> TypeSpec {
    TypeSpec::Name(String::from(name))
}

fn resolved(name: &str) -> Descriptor {
    to_ffi_type(&named(name)).expect("a name of the vocabulary")
}

#[test]
fn every_tag_resolves_to_its_standard_width() {
    let expected: [(&str, TypeTag, usize, usize); 12] = [
        ("u8", TypeTag::U8, 1, std::mem::align_of::<u8>()),
        ("i8", TypeTag::I8, 1, std::mem::align_of::<i8>()),
        ("u16", TypeTag::U16, 2, std::mem::align_of::<u16>()),
        ("i16", TypeTag::I16, 2, std::mem::align_of::<i16>()),
        ("u32", TypeTag::U32, 4, std::mem::align_of::<u32>()),
        ("i32", TypeTag::I32, 4, std::mem::align_of::<i32>()),
        ("u64", TypeTag::U64, 8, std::mem::align_of::<u64>()),
        ("i64", TypeTag::I64, 8, std::mem::align_of::<i64>()),
        ("f32", TypeTag::F32, 4, std::mem::align_of::<f32>()),
        ("f64", TypeTag::F64, 8, std::mem::align_of::<f64>()),
        ("pointer", TypeTag::Pointer, std::mem::size_of::<usize>(), std::mem::align_of::<usize>()),
        ("void", TypeTag::Void, 1, 1),
    ];
    for (name, tag, size, alignment) in expected {
        let descriptor: Descriptor = resolved(name);
        assert_eq!(descriptor.tag(), tag, "{}", name);
        assert_eq!(descriptor.size(), size, "{}", name);
        assert_eq!(descriptor.alignment(), alignment, "{}", name);
        assert_eq!(TypeTag::from_name(name), Some(tag));
        assert_eq!(tag.descriptor(), descriptor);
    }
}

#[test]
fn pointer_is_as_wide_as_an_address() {
    assert_eq!(resolved("pointer").size(), std::mem::size_of::<&u8>());
    assert_eq!(resolved("pointer").alignment(), std::mem::align_of::<&u8>());
}

#[test]
fn unknown_name_is_refused_with_the_name() {
    for name in ["u128", "", "U8", "int", "u8 ", " u8", "pointer ", "voi", "voidd", "f16", "u6", "é8", "u¹6"] {
        match to_ffi_type(&named(name)) {
            Err(FfiError::UnknownType(found)) => assert_eq!(found, name),
            other => panic!("{:?} resolved to {:?}", name, other),
        }
        assert_eq!(TypeTag::from_name(name), None);
    }
}

#[test]
fn unknown_type_message_names_the_type() {
    let error: FfiError = to_ffi_type(&named("quux")).unwrap_err();
    assert_eq!(error.message(), "Unknown type: quux");
}

#[test]
fn a_specification_that_is_no_name_falls_back_to_void() {
    let descriptor: Descriptor = to_ffi_type(&TypeSpec::Other).expect("never refused");
    assert_eq!(descriptor.tag(), TypeTag::Void);
    assert_eq!(descriptor.size(), 1);
}

#[test]
fn build_resolves_result_and_parameters_in_order() {
    let parameters: Vec<TypeSpec> = vec![named("i32"), named("pointer"), TypeSpec::Other, named("f64")];
    let interface: CallInterface =
        CallInterface::build(&named("u64"), &parameters, ByteOrder::LittleEndian).unwrap();
    assert_eq!(interface.result().tag(), TypeTag::U64);
    let tags: Vec<TypeTag> = interface.parameters().iter().map(|d| d.tag()).collect();
    assert_eq!(tags, vec![TypeTag::I32, TypeTag::Pointer, TypeTag::Void, TypeTag::F64]);
    assert_eq!(interface.parameter_count(), 4);
    assert_eq!(interface.order(), ByteOrder::LittleEndian);
}

#[test]
fn build_without_parameters() {
    let interface: CallInterface =
        CallInterface::build(&named("void"), &Vec::new(), ByteOrder::BigEndian).unwrap();
    assert_eq!(interface.result().tag(), TypeTag::Void);
    assert_eq!(interface.parameter_count(), 0);
    assert!(interface.parameters().is_empty());
    assert_eq!(interface.order(), ByteOrder::BigEndian);
}

#[test]
fn build_reports_the_first_failure_in_order() {
    let parameters: Vec<TypeSpec> = vec![named("i32"), named("first"), named("second")];
    let error: FfiError =
        CallInterface::build(&named("u8"), &parameters, ByteOrder::LittleEndian).unwrap_err();
    assert_eq!(error, FfiError::UnknownType(String::from("first")));
    // The result is resolved before any parameter.
    let error: FfiError =
        CallInterface::build(&named("result"), &parameters, ByteOrder::LittleEndian).unwrap_err();
    assert_eq!(error, FfiError::UnknownType(String::from("result")));
}

#[test]
fn prep_status_check() {
    assert_eq!(PrepStatus::Accepted.check(), Ok(()));
    assert_eq!(
        PrepStatus::BadTypedef.check(),
        Err(FfiError::SignatureBuildError(BuildFault::BadTypedef))
    );
    assert_eq!(PrepStatus::BadAbi.check(), Err(FfiError::SignatureBuildError(BuildFault::BadAbi)));
    assert_eq!(
        PrepStatus::BadArgumentType.check(),
        Err(FfiError::SignatureBuildError(BuildFault::BadArgumentType))
    );
}

#[test]
fn messages_of_the_other_failures() {
    assert_eq!(
        FfiError::LibraryOpenFailed(String::from("/lib/none.so")).message(),
        "Failed to load library: /lib/none.so"
    );
    assert_eq!(
        FfiError::SymbolNotFound(String::from("frobnicate")).message(),
        "Failed to find symbol: frobnicate"
    );
    assert_eq!(
        FfiError::SignatureBuildError(BuildFault::BadAbi).message(),
        "Failed to build call interface"
    );
    assert_eq!(FfiError::InvalidSignature(2).message(), "Invalid signature: void parameter");
    assert_eq!(FfiError::UnsupportedArgumentShape(0).message(), "Unsupported argument shape");
    assert_eq!(
        FfiError::BufferTooSmall { needed: 8, found: 4 }.message(),
        "Result buffer too small"
    );
}

#[test]
fn what_each_slot_reads() {
    for tag in [TypeTag::U8, TypeTag::I8, TypeTag::U16, TypeTag::I16, TypeTag::U32, TypeTag::I32, TypeTag::F32, TypeTag::F64] {
        assert_eq!(tag.reading(), Reading::Number);
    }
    assert_eq!(TypeTag::U64.reading(), Reading::BigIntOrNumber);
    assert_eq!(TypeTag::I64.reading(), Reading::BigIntOrNumber);
    assert_eq!(TypeTag::Pointer.reading(), Reading::Address);
    assert_eq!(TypeTag::Void.reading(), Reading::Nothing);
}
