//! Call interfaces, bound symbols, and the two halves of an invocation.

use crate::bytes::ByteOrder;
use crate::error::{BuildFault, Fault, FfiError};
use crate::marshal::{checked_decoding, decode, encode, encoding, ArgumentCell};
use crate::tag::{to_ffi_type, Descriptor, TypeSpec, TypeTag};
use crate::value::{ScriptValue, Value};
use vstd::prelude::*;
use vstd::string::StringExecFns;

verus! {

/// The mathematical content of a [`CallInterface`]: the result type, the
/// parameter types in the order of the arguments, and the byte order of the
/// calling convention.
pub struct Signature {
    pub result: TypeTag,
    pub parameters: Seq<TypeTag>,
    pub order: ByteOrder,
}

/// The tags of a sequence of descriptors.
pub open spec fn tags(descriptors: Seq<Descriptor>) -> Seq<TypeTag> {
    Seq::new(descriptors.len(), |i: int| descriptors[i]@)
}

/// What a sequence of type specifications resolves to, one after the other:
/// their tags in the same order, or the failure of the first one that does
/// not resolve.
pub open spec fn resolved_all(specs: Seq<TypeSpec>) -> Result<Seq<TypeTag>, Fault>
    decreases specs.len(),
{
    if specs.len() == 0 {
        Ok(Seq::empty())
    } else {
        match resolved_all(specs.drop_last()) {
            Err(fault) => Err(fault),
            Ok(front) => match specs.last().resolved() {
                Ok(tag) => Ok(front.push(tag)),
                Err(fault) => Err(fault),
            },
        }
    }
}

/// The signature that a result specification and parameter specifications
/// compose: the result is resolved first, then the parameters in order, and
/// the first failure is the failure of the whole. More parameters than a
/// 32-bit count holds cannot be called through.
pub open spec fn composed(result: TypeSpec, parameters: Seq<TypeSpec>, order: ByteOrder) -> Result<
    Signature,
    Fault,
> {
    match result.resolved() {
        Err(fault) => Err(fault),
        Ok(result_tag) => match resolved_all(parameters) {
            Err(fault) => Err(fault),
            Ok(parameter_tags) => if parameter_tags.len() > u32::MAX {
                Err(Fault::SignatureBuildError(BuildFault::TooManyParameters))
            } else {
                Ok(Signature { result: result_tag, parameters: parameter_tags, order })
            },
        },
    }
}

/// A reusable description of one function signature: what a generic native
/// call needs to know to pass the arguments and take the result.
#[derive(Debug, PartialEq, Eq)]
pub struct CallInterface {
    result: Descriptor,
    parameters: Vec<Descriptor>,
    order: ByteOrder,
}

impl View for CallInterface {
    type V = Signature;

    closed spec fn view(&self) -> Signature {
        Signature {
            result: self.result@,
            parameters: tags(self.parameters@),
            order: self.order,
        }
    }
}

impl CallInterface {
    #[verifier::type_invariant]
    spec fn inv(self) -> bool {
        self.parameters.len() <= u32::MAX
    }

    /// Composes the call interface of a signature: resolves the result
    /// specification and then each parameter specification in order.
    pub fn build(result: &TypeSpec, parameters: &Vec<TypeSpec>, order: ByteOrder) -> (built:
        Result<CallInterface, FfiError>)
        ensures
            match composed(*result, parameters@, order) {
                Ok(signature) => built matches Ok(interface) && interface@ == signature,
                Err(fault) => built matches Err(error) && error@ == fault,
            },
    {
        let result_descriptor = match to_ffi_type(result) {
            Ok(descriptor) => descriptor,
            Err(error) => {
                return Err(error);
            },
        };
        let mut descriptors: Vec<Descriptor> = Vec::new();
        let mut i: usize = 0;
        assert(parameters@.take(0) =~= Seq::<TypeSpec>::empty());
        assert(tags(descriptors@) =~= Seq::<TypeTag>::empty());
        while i < parameters.len()
            invariant
                i <= parameters.len(),
                descriptors.len() == i,
                result.resolved() == Ok::<TypeTag, Fault>(result_descriptor@),
                resolved_all(parameters@.take(i as int)) == Ok::<Seq<TypeTag>, Fault>(
                    tags(descriptors@),
                ),
            decreases parameters.len() - i,
        {
            let ghost front = parameters@.take(i as int);
            let ghost next = parameters@.take(i + 1);
            proof {
                assert(next.drop_last() =~= front);
                assert(next.last() == parameters[i as int]);
            }
            match to_ffi_type(&parameters[i]) {
                Ok(descriptor) => {
                    let ghost before = tags(descriptors@);
                    descriptors.push(descriptor);
                    assert(tags(descriptors@) =~= before.push(descriptor@));
                },
                Err(error) => {
                    proof {
                        assert(parameters@[i as int].resolved() == Err::<TypeTag, Fault>(error@));
                        assert(resolved_all(next) == Err::<Seq<TypeTag>, Fault>(error@));
                        lemma_first_failure(parameters@, i + 1);
                        assert(resolved_all(parameters@) == Err::<Seq<TypeTag>, Fault>(error@));
                    }
                    return Err(error);
                },
            }
            i += 1;
        }
        assert(parameters@.take(i as int) =~= parameters@);
        if descriptors.len() > u32::MAX as usize {
            return Err(FfiError::SignatureBuildError(BuildFault::TooManyParameters));
        }
        Ok(CallInterface { result: result_descriptor, parameters: descriptors, order })
    }

    /// The descriptor of the result.
    pub fn result(&self) -> (descriptor: &Descriptor)
        ensures
            descriptor@ == self@.result,
    {
        &self.result
    }

    /// The descriptors of the parameters, in the order of the arguments.
    pub fn parameters(&self) -> (descriptors: &Vec<Descriptor>)
        ensures
            tags(descriptors@) == self@.parameters,
            descriptors.len() <= u32::MAX,
    {
        proof {
            use_type_invariant(self);
        }
        &self.parameters
    }

    /// The number of parameters, as the call primitive counts them.
    pub fn parameter_count(&self) -> (count: u32)
        ensures
            count == self@.parameters.len(),
    {
        proof {
            use_type_invariant(self);
        }
        self.parameters.len() as u32
    }

    /// The byte order in which arguments and results are laid out.
    pub fn order(&self) -> (order: ByteOrder)
        ensures
            order == self@.order,
    {
        self.order
    }
}

/// What a declaration says of one native function: the type of its result
/// and the types of its parameters, in order.
#[derive(Clone, Debug, PartialEq, Eq)]
pub struct Declaration {
    pub result: TypeSpec,
    pub parameters: Vec<TypeSpec>,
}

impl Declaration {
    /// The signature that the declaration composes.
    pub open spec fn composed(self, order: ByteOrder) -> Result<Signature, Fault> {
        composed(self.result, self.parameters@, order)
    }
}

/// The mathematical content of a [`Symbol`].
pub struct SymbolView {
    pub name: Seq<char>,
    pub signature: Signature,
    pub address: nat,
}

/// A bound native symbol: the address of a native function, paired with
/// the call interface of its declared signature, under the name by which
/// the script reaches it.
#[derive(Debug, PartialEq, Eq)]
pub struct Symbol {
    name: String,
    cif: CallInterface,
    ptr: u64,
}

impl View for Symbol {
    type V = SymbolView;

    closed spec fn view(&self) -> SymbolView {
        SymbolView { name: self.name@, signature: self.cif@, address: self.ptr as nat }
    }
}

/// Everything a generic native call takes: the address to call, the
/// argument cells in the order of the parameters, and a zeroed buffer for
/// the result.
#[derive(Debug, PartialEq, Eq)]
pub struct Invocation {
    pub target: u64,
    pub cells: Vec<ArgumentCell>,
    pub result: Vec<u8>,
}

/// The mathematical contents of a sequence of script values.
pub open spec fn values(arguments: Seq<ScriptValue>) -> Seq<Value> {
    Seq::new(arguments.len(), |i: int| arguments[i]@)
}

/// The bytes of a sequence of argument cells.
pub open spec fn contents(cells: Seq<ArgumentCell>) -> Seq<Seq<u8>> {
    Seq::new(cells.len(), |i: int| cells[i]@)
}

/// The argument at a position: the supplied value, or "undefined" where the
/// caller supplied none.
pub open spec fn argument(arguments: Seq<Value>, index: int) -> Value {
    if 0 <= index < arguments.len() {
        arguments[index]
    } else {
        Value::Undefined
    }
}

/// The cells of the first `count` parameters, each encoding the argument at
/// its position, or the failure of the first argument that cannot be
/// encoded, with its index. Arguments beyond the parameters play no part.
pub open spec fn encoded_arguments(signature: Signature, arguments: Seq<Value>, count: nat)
    -> Result<Seq<Seq<u8>>, Fault>
    decreases count,
{
    if count == 0 {
        Ok(Seq::empty())
    } else {
        match encoded_arguments(signature, arguments, (count - 1) as nat) {
            Err(fault) => Err(fault),
            Ok(cells) => match encoding(
                signature.parameters[count - 1],
                argument(arguments, count - 1),
                signature.order,
            ) {
                Ok(bytes) => Ok(cells.push(bytes)),
                Err(fault) => Err(fault.located((count - 1) as nat)),
            },
        }
    }
}

/// What the first half of a call hands to the native invoker.
pub open spec fn prepared_call(symbol: SymbolView, arguments: Seq<Value>) -> Result<
    (nat, Seq<Seq<u8>>, Seq<u8>),
    Fault,
> {
    match encoded_arguments(symbol.signature, arguments, symbol.signature.parameters.len()) {
        Ok(cells) => Ok(
            (symbol.address, cells, Seq::new(symbol.signature.result.size(), |i: int| 0u8)),
        ),
        Err(fault) => Err(fault),
    }
}

/// Binds the function at address `ptr` under `name`, with the signature
/// that `def` declares.
///
/// The types of the declaration are resolved, the result first and then
/// the parameters in order; the first that does not resolve fails the
/// binding.
pub fn ffi_function(name: &str, ptr: u64, def: &Declaration, order: ByteOrder) -> (bound: Result<
    Symbol,
    FfiError,
>)
    ensures
        match def.composed(order) {
            Ok(signature) => bound matches Ok(symbol) && symbol@ == (SymbolView {
                name: name@,
                signature,
                address: ptr as nat,
            }),
            Err(fault) => bound matches Err(error) && error@ == fault,
        },
{
    match CallInterface::build(&def.result, &def.parameters, order) {
        Ok(cif) => Ok(Symbol { name: String::from_str(name), cif, ptr }),
        Err(error) => Err(error),
    }
}

/// A buffer of `size` zero bytes.
fn zeroed(size: usize) -> (buffer: Vec<u8>)
    ensures
        buffer@ == Seq::new(size as nat, |i: int| 0u8),
{
    let mut buffer: Vec<u8> = Vec::new();
    let mut i: usize = 0;
    while i < size
        invariant
            i <= size,
            buffer.len() == i,
            forall|k: int| 0 <= k < i ==> buffer[k] == 0u8,
        decreases size - i,
    {
        buffer.push(0);
        i += 1;
    }
    assert(buffer@ =~= Seq::new(size as nat, |i: int| 0u8));
    buffer
}

impl Symbol {
    /// The name under which the script reaches the function.
    pub fn name(&self) -> (name: &String)
        ensures
            name@ == self@.name,
    {
        &self.name
    }

    /// The call interface of the function's signature.
    pub fn interface(&self) -> (interface: &CallInterface)
        ensures
            interface@ == self@.signature,
    {
        &self.cif
    }

    /// The address of the function.
    pub fn address(&self) -> (address: u64)
        ensures
            address == self@.address,
    {
        self.ptr
    }

    /// The first half of a call: encodes the arguments, one cell for each
    /// parameter and in the order of the parameters, and provides a zeroed
    /// result buffer of the size of the result type.
    ///
    /// A parameter for which no argument was supplied takes "undefined";
    /// arguments beyond the parameters are ignored. The first argument that
    /// cannot be encoded fails the call, and only this call.
    pub fn begin_call(&self, arguments: &Vec<ScriptValue>) -> (begun: Result<Invocation, FfiError>)
        ensures
            match prepared_call(self@, values(arguments@)) {
                Ok((target, cells, result)) => begun matches Ok(invocation) && invocation.target
                    == target && contents(invocation.cells@) == cells && invocation.result@
                    == result,
                Err(fault) => begun matches Err(error) && error@ == fault,
            },
    {
        let parameters = self.cif.parameters();
        let order = self.cif.order();
        let undefined = ScriptValue::Undefined;
        let mut cells: Vec<ArgumentCell> = Vec::new();
        let mut i: usize = 0;
        assert(contents(cells@) =~= Seq::<Seq<u8>>::empty());
        while i < parameters.len()
            invariant
                i <= parameters.len(),
                cells.len() == i,
                tags(parameters@) == self@.signature.parameters,
                order == self@.signature.order,
                undefined@ == Value::Undefined,
                encoded_arguments(self@.signature, values(arguments@), i as nat) == Ok::<
                    Seq<Seq<u8>>,
                    Fault,
                >(contents(cells@)),
            decreases parameters.len() - i,
        {
            let value: &ScriptValue = if i < arguments.len() {
                &arguments[i]
            } else {
                &undefined
            };
            assert(value@ == argument(values(arguments@), i as int));
            assert(parameters[i as int]@ == self@.signature.parameters[i as int]);
            match encode(&parameters[i], value, order) {
                Ok(cell) => {
                    let ghost before = contents(cells@);
                    cells.push(cell);
                    assert(contents(cells@) =~= before.push(cell@));
                },
                Err(fault) => {
                    proof {
                        lemma_first_refusal(
                            self@.signature,
                            values(arguments@),
                            (i + 1) as nat,
                            parameters.len() as nat,
                        );
                    }
                    return Err(fault.at(i));
                },
            }
            i += 1;
        }
        Ok(Invocation { target: self.ptr, cells, result: zeroed(self.cif.result().size()) })
    }

    /// The second half of a call: decodes the result buffer that the native
    /// function has filled. A failure here fails only this call.
    pub fn finish_call(&self, result: &Vec<u8>) -> (finished: Result<ScriptValue, FfiError>)
        ensures
            match checked_decoding(self@.signature.result, result@, self@.signature.order) {
                Ok(expected) => finished matches Ok(value) && value@ == expected
                    && value.is_canonical(),
                Err(fault) => finished matches Err(error) && error@ == fault,
            },
    {
        decode(self.cif.result(), result, self.cif.order())
    }
}

/// A refusal among the first arguments is the refusal of the whole call.
pub proof fn lemma_first_refusal(signature: Signature, arguments: Seq<Value>, n: nat, count: nat)
    requires
        n <= count,
        encoded_arguments(signature, arguments, n) is Err,
    ensures
        encoded_arguments(signature, arguments, count) == encoded_arguments(
            signature,
            arguments,
            n,
        ),
    decreases count - n,
{
    if n < count {
        lemma_first_refusal(signature, arguments, n + 1, count);
    }
}

/// A failure among the first specifications is the failure of the whole
/// sequence.
pub proof fn lemma_first_failure(specs: Seq<TypeSpec>, n: int)
    requires
        0 <= n <= specs.len(),
        resolved_all(specs.take(n)) is Err,
    ensures
        resolved_all(specs) == resolved_all(specs.take(n)),
    decreases specs.len() - n,
{
    if n < specs.len() {
        assert(specs.take(n + 1).drop_last() =~= specs.take(n));
        lemma_first_failure(specs, n + 1);
    } else {
        assert(specs.take(n) =~= specs);
    }
}

} // verus!
