//! The failures that binding and marshalling report.

use vstd::prelude::*;
use vstd::string::StringExecFns;

verus! {

/// What the platform's call-interface primitive answered when it was asked
/// to prepare a composed signature.
#[derive(Clone, Copy, Debug, PartialEq, Eq, Structural)]
pub enum PrepStatus {
    /// The signature was accepted.
    Accepted,
    /// A type of the signature is malformed.
    BadTypedef,
    /// The calling convention is not one the platform knows.
    BadAbi,
    /// A type of the signature cannot be passed as an argument.
    BadArgumentType,
}

/// Why a composed signature cannot be called through.
#[derive(Clone, Copy, Debug, PartialEq, Eq, Structural)]
pub enum BuildFault {
    /// The signature has more parameters than the primitive can count.
    TooManyParameters,
    /// The primitive found a type of the signature malformed.
    BadTypedef,
    /// The primitive does not know the calling convention.
    BadAbi,
    /// The primitive cannot pass a type of the signature as an argument.
    BadArgumentType,
}

impl PrepStatus {
    /// The fault that the primitive's answer reports, if it reports one.
    pub open spec fn fault(self) -> Option<BuildFault> {
        match self {
            PrepStatus::Accepted => None,
            PrepStatus::BadTypedef => Some(BuildFault::BadTypedef),
            PrepStatus::BadAbi => Some(BuildFault::BadAbi),
            PrepStatus::BadArgumentType => Some(BuildFault::BadArgumentType),
        }
    }

    /// Turns the primitive's answer into success or a structured failure.
    pub fn check(self) -> (checked: Result<(), FfiError>)
        ensures
            match self.fault() {
                None => checked is Ok,
                Some(fault) => checked matches Err(error) && error@ == Fault::SignatureBuildError(
                    fault,
                ),
            },
    {
        match self {
            PrepStatus::Accepted => Ok(()),
            PrepStatus::BadTypedef => Err(FfiError::SignatureBuildError(BuildFault::BadTypedef)),
            PrepStatus::BadAbi => Err(FfiError::SignatureBuildError(BuildFault::BadAbi)),
            PrepStatus::BadArgumentType => Err(
                FfiError::SignatureBuildError(BuildFault::BadArgumentType),
            ),
        }
    }
}

/// Why a single argument could not be encoded for its slot.
#[derive(Clone, Copy, Debug, PartialEq, Eq, Structural)]
pub enum SlotFault {
    /// The slot is declared `void`, which no argument can have.
    InvalidSignature,
    /// The value has no encoding for the slot's classification.
    UnsupportedArgumentShape,
}

/// A structured failure. Each variant carries what locates the fault: the
/// offending name or path, or the index of the argument.
#[derive(Clone, Debug, PartialEq, Eq)]
pub enum FfiError {
    /// A type was named that is not in the vocabulary.
    UnknownType(String),
    /// The signature cannot be prepared for calling.
    SignatureBuildError(BuildFault),
    /// The parameter at this index is declared `void`.
    InvalidSignature(usize),
    /// The argument at this index has no encoding for its slot.
    UnsupportedArgumentShape(usize),
    /// A result buffer holds fewer bytes than the result type occupies.
    BufferTooSmall { needed: usize, found: usize },
    /// The library at this path could not be opened.
    LibraryOpenFailed(String),
    /// The library has no symbol of this name.
    SymbolNotFound(String),
}

/// The mathematical content of an [`FfiError`].
pub enum Fault {
    UnknownType(Seq<char>),
    SignatureBuildError(BuildFault),
    InvalidSignature(nat),
    UnsupportedArgumentShape(nat),
    BufferTooSmall { needed: nat, found: nat },
    LibraryOpenFailed(Seq<char>),
    SymbolNotFound(Seq<char>),
}

impl View for FfiError {
    type V = Fault;

    open spec fn view(&self) -> Fault {
        match self {
            FfiError::UnknownType(name) => Fault::UnknownType(name@),
            FfiError::SignatureBuildError(status) => Fault::SignatureBuildError(*status),
            FfiError::InvalidSignature(index) => Fault::InvalidSignature(*index as nat),
            FfiError::UnsupportedArgumentShape(index) => Fault::UnsupportedArgumentShape(
                *index as nat,
            ),
            FfiError::BufferTooSmall { needed, found } => Fault::BufferTooSmall {
                needed: *needed as nat,
                found: *found as nat,
            },
            FfiError::LibraryOpenFailed(path) => Fault::LibraryOpenFailed(path@),
            FfiError::SymbolNotFound(name) => Fault::SymbolNotFound(name@),
        }
    }
}

impl SlotFault {
    /// The failure of a whole call when the argument at `index` has this
    /// fault.
    pub open spec fn located(self, index: nat) -> Fault {
        match self {
            SlotFault::InvalidSignature => Fault::InvalidSignature(index),
            SlotFault::UnsupportedArgumentShape => Fault::UnsupportedArgumentShape(index),
        }
    }

    /// Attaches the index of the argument to the fault of its slot.
    pub fn at(self, index: usize) -> (error: FfiError)
        ensures
            error@ == self.located(index as nat),
    {
        match self {
            SlotFault::InvalidSignature => FfiError::InvalidSignature(index),
            SlotFault::UnsupportedArgumentShape => FfiError::UnsupportedArgumentShape(index),
        }
    }
}

impl Fault {
    /// The text that describes the failure to a user.
    pub open spec fn message(self) -> Seq<char> {
        match self {
            Fault::UnknownType(name) => "Unknown type: "@ + name,
            Fault::SignatureBuildError(_) => "Failed to build call interface"@,
            Fault::InvalidSignature(_) => "Invalid signature: void parameter"@,
            Fault::UnsupportedArgumentShape(_) => "Unsupported argument shape"@,
            Fault::BufferTooSmall { .. } => "Result buffer too small"@,
            Fault::LibraryOpenFailed(path) => "Failed to load library: "@ + path,
            Fault::SymbolNotFound(name) => "Failed to find symbol: "@ + name,
        }
    }
}

impl FfiError {
    /// A descriptive message, naming the offending type, path or symbol.
    pub fn message(&self) -> (text: String)
        ensures
            text@ == self@.message(),
    {
        match self {
            FfiError::UnknownType(name) => String::from_str("Unknown type: ").concat(
                name.as_str(),
            ),
            FfiError::SignatureBuildError(_) => String::from_str("Failed to build call interface"),
            FfiError::InvalidSignature(_) => String::from_str("Invalid signature: void parameter"),
            FfiError::UnsupportedArgumentShape(_) => String::from_str(
                "Unsupported argument shape",
            ),
            FfiError::BufferTooSmall { .. } => String::from_str("Result buffer too small"),
            FfiError::LibraryOpenFailed(path) => String::from_str(
                "Failed to load library: ",
            ).concat(path.as_str()),
            FfiError::SymbolNotFound(name) => String::from_str("Failed to find symbol: ").concat(
                name.as_str(),
            ),
        }
    }
}

} // verus!
