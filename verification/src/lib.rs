//! Marshalling between dynamically typed script values and native calls.
//!
//! A signature is declared with symbolic type tags. From it the library
//! resolves type descriptors, composes a call interface, encodes script
//! arguments into byte-exact argument cells, and decodes the raw bytes a
//! native function left in its result buffer back into a script value.
//! Performing the native call itself, and loading libraries, is left to
//! the embedding program, which is driven through plain values.

pub mod bigint;
pub mod bytes;
pub mod error;
pub mod laws;
pub mod library;
pub mod marshal;
pub mod number;
pub mod symbol;
pub mod tag;
pub mod value;

pub use bigint::BigInt;
pub use bytes::{load, store, ByteOrder};
pub use error::{BuildFault, Fault, FfiError, PrepStatus, SlotFault};
pub use library::{
    class_dynamic_library, Action, DynamicLibrary, Event, Export, LibraryView, Request, State,
};
pub use marshal::{decode, encode, ArgumentCell};
pub use number::Number;
pub use symbol::{
    ffi_function, CallInterface, Declaration, Invocation, Signature, Symbol, SymbolView,
};
pub use tag::{to_ffi_type, Descriptor, Reading, TypeSpec, TypeTag};
pub use value::{ScriptValue, Value};
