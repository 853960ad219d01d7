//! The library binding facade: a state machine that the embedding program
//! drives with what the platform's loader answers.
//!
//! A facade starts unbound. The program opens the library and reports the
//! outcome; for each declared symbol in turn it resolves the address and
//! then prepares the composed signature, reporting each answer. The facade
//! says after every step what to do next. It ends bound, with one callable
//! for each declared symbol, or failed, with none.

use crate::bytes::ByteOrder;
use crate::error::{Fault, FfiError, PrepStatus};
use crate::symbol::{ffi_function, CallInterface, Declaration, Signature, Symbol, SymbolView};
use vstd::prelude::*;
use vstd::string::StringExecFns;

verus! {

/// One entry of a symbol table: the name of an exported function and the
/// declaration of its signature.
#[derive(Clone, Debug, PartialEq, Eq)]
pub struct Export {
    pub name: String,
    pub declaration: Declaration,
}

/// What the embedding program reports to the facade.
#[derive(Clone, Copy, Debug, PartialEq, Eq)]
pub enum Event {
    /// Whether the library could be opened.
    Opened(bool),
    /// The address of the symbol asked for; zero if the library has none of
    /// that name.
    Resolved(u64),
    /// What the call-interface primitive answered to the signature asked
    /// about.
    Prepared(PrepStatus),
}

/// What the facade asks the embedding program to do next.
#[derive(Debug)]
pub enum Action<'a> {
    /// Open the library at this path and report `Opened`.
    Open(&'a String),
    /// Resolve the symbol of this name and report `Resolved`.
    Resolve(&'a String),
    /// Prepare this call interface and report `Prepared`.
    Prepare(&'a CallInterface),
    /// Nothing: the facade is bound or has failed.
    Finished,
}

/// The mathematical content of an [`Action`].
pub enum Request {
    Open(Seq<char>),
    Resolve(Seq<char>),
    Prepare(Signature),
    Finished,
}

impl<'a> View for Action<'a> {
    type V = Request;

    open spec fn view(&self) -> Request {
        match self {
            Action::Open(path) => Request::Open(path@),
            Action::Resolve(name) => Request::Resolve(name@),
            Action::Prepare(interface) => Request::Prepare(interface@),
            Action::Finished => Request::Finished,
        }
    }
}

/// Where a facade stands.
pub enum State {
    /// The library has not been opened.
    Unbound,
    /// The library is open. The symbols in `bound` are ready; the address of
    /// the next declared symbol is awaited.
    Resolving { bound: Seq<SymbolView> },
    /// The address of the next declared symbol is known; the answer of the
    /// call-interface primitive to its signature is awaited.
    Preparing { bound: Seq<SymbolView>, pending: SymbolView },
    /// Every declared symbol is bound and published.
    Bound { symbols: Seq<SymbolView> },
    /// Binding was abandoned. Nothing is published.
    Failed { fault: Fault },
}

/// The mathematical content of a [`DynamicLibrary`].
pub struct LibraryView {
    pub path: Seq<char>,
    pub exports: Seq<Export>,
    pub order: ByteOrder,
    pub state: State,
}

impl LibraryView {
    /// Whether the first symbols of the table are bound as declared: each
    /// under its declared name, with the signature that its declaration
    /// composes, at an address that is not null.
    pub open spec fn bound_as_declared(self, bound: Seq<SymbolView>) -> bool {
        &&& bound.len() <= self.exports.len()
        &&& forall|i: int|
            0 <= i < bound.len() ==> {
                &&& (#[trigger] bound[i]).name == self.exports[i].name@
                &&& self.exports[i].declaration.composed(self.order) == Ok::<Signature, Fault>(
                    bound[i].signature,
                )
                &&& bound[i].address != 0
            }
    }

    /// What holds of every facade.
    pub open spec fn wf(self) -> bool {
        match self.state {
            State::Unbound => true,
            State::Resolving { bound } => bound.len() < self.exports.len()
                && self.bound_as_declared(bound),
            State::Preparing { bound, pending } => bound.len() < self.exports.len()
                && self.bound_as_declared(bound.push(pending)),
            State::Bound { symbols } => symbols.len() == self.exports.len()
                && self.bound_as_declared(symbols),
            State::Failed { fault } => true,
        }
    }

    /// What the facade asks for in this state.
    pub open spec fn request(self) -> Request {
        match self.state {
            State::Unbound => Request::Open(self.path),
            State::Resolving { bound } => Request::Resolve(self.exports[bound.len() as int].name@),
            State::Preparing { bound, pending } => Request::Prepare(pending.signature),
            State::Bound { symbols } => Request::Finished,
            State::Failed { fault } => Request::Finished,
        }
    }

    /// The state after an event.
    ///
    /// A library that cannot be opened, a symbol that the library lacks, a
    /// declaration that does not resolve and a signature that the primitive
    /// rejects each end the binding in failure, at the first symbol in the
    /// order of the table at which one occurs. An event that the state does
    /// not await changes nothing; a bound and a failed facade stay as they
    /// are.
    pub open spec fn step(self, event: Event) -> State {
        match (self.state, event) {
            (State::Unbound, Event::Opened(opened)) => if !opened {
                State::Failed { fault: Fault::LibraryOpenFailed(self.path) }
            } else if self.exports.len() == 0 {
                State::Bound { symbols: Seq::empty() }
            } else {
                State::Resolving { bound: Seq::empty() }
            },
            (State::Resolving { bound }, Event::Resolved(address)) => {
                let export = self.exports[bound.len() as int];
                if address == 0 {
                    State::Failed { fault: Fault::SymbolNotFound(export.name@) }
                } else {
                    match export.declaration.composed(self.order) {
                        Ok(signature) => State::Preparing {
                            bound,
                            pending: SymbolView {
                                name: export.name@,
                                signature,
                                address: address as nat,
                            },
                        },
                        Err(fault) => State::Failed { fault },
                    }
                }
            },
            (State::Preparing { bound, pending }, Event::Prepared(status)) => match status.fault() {
                None => if bound.len() + 1 == self.exports.len() {
                    State::Bound { symbols: bound.push(pending) }
                } else {
                    State::Resolving { bound: bound.push(pending) }
                },
                Some(fault) => State::Failed { fault: Fault::SignatureBuildError(fault) },
            },
            (state, _) => state,
        }
    }

    /// The facade after an event: the state moves, the rest stays.
    pub open spec fn after(self, event: Event) -> LibraryView {
        LibraryView { state: self.step(event), ..self }
    }
}

/// The mathematical contents of a sequence of symbols.
pub open spec fn symbol_views(symbols: Seq<Symbol>) -> Seq<SymbolView> {
    Seq::new(symbols.len(), |i: int| symbols[i]@)
}

/// How far the binding has come.
enum Stage {
    Unbound,
    Resolving,
    Preparing(Symbol),
    Bound,
    Failed(FfiError),
}

/// The facade through which a script binds the functions of one native
/// library.
pub struct DynamicLibrary {
    path: String,
    exports: Vec<Export>,
    order: ByteOrder,
    stage: Stage,
    symbols: Vec<Symbol>,
}

impl View for DynamicLibrary {
    type V = LibraryView;

    closed spec fn view(&self) -> LibraryView {
        LibraryView {
            path: self.path@,
            exports: self.exports@,
            order: self.order,
            state: match self.stage {
                Stage::Unbound => State::Unbound,
                Stage::Resolving => State::Resolving { bound: symbol_views(self.symbols@) },
                Stage::Preparing(pending) => State::Preparing {
                    bound: symbol_views(self.symbols@),
                    pending: pending@,
                },
                Stage::Bound => State::Bound { symbols: symbol_views(self.symbols@) },
                Stage::Failed(error) => State::Failed { fault: error@ },
            },
        }
    }
}

impl DynamicLibrary {
    #[verifier::type_invariant]
    spec fn inv(self) -> bool {
        self@.wf()
    }

    /// An unbound facade for the library at `path`, with the symbols that
    /// `exports` declares, for a platform of the given byte order.
    pub fn new(path: &str, exports: Vec<Export>, order: ByteOrder) -> (library: DynamicLibrary)
        ensures
            library@ == (LibraryView {
                path: path@,
                exports: exports@,
                order,
                state: State::Unbound,
            }),
    {
        DynamicLibrary {
            path: String::from_str(path),
            exports,
            order,
            stage: Stage::Unbound,
            symbols: Vec::new(),
        }
    }

    /// A failed facade. It keeps none of the symbols that were bound before
    /// the failure.
    fn failed(path: String, exports: Vec<Export>, order: ByteOrder, error: FfiError) -> (library:
        DynamicLibrary)
        ensures
            library@ == (LibraryView {
                path: path@,
                exports: exports@,
                order,
                state: State::Failed { fault: error@ },
            }),
    {
        DynamicLibrary { path, exports, order, stage: Stage::Failed(error), symbols: Vec::new() }
    }

    /// What the embedding program is to do next.
    pub fn action(&self) -> (action: Action<'_>)
        ensures
            action@ == self@.request(),
    {
        proof {
            use_type_invariant(self);
        }
        match &self.stage {
            Stage::Unbound => Action::Open(&self.path),
            Stage::Resolving => Action::Resolve(&self.exports[self.symbols.len()].name),
            Stage::Preparing(pending) => Action::Prepare(pending.interface()),
            Stage::Bound => Action::Finished,
            Stage::Failed(_) => Action::Finished,
        }
    }

    /// Takes the facade from one state to the next.
    pub fn step(self, event: Event) -> (next: DynamicLibrary)
        ensures
            next@ == self@.after(event),
            next@.wf(),
    {
        proof {
            use_type_invariant(&self);
        }
        let DynamicLibrary { path, exports, order, stage, mut symbols } = self;
        let ghost before = symbol_views(symbols@);
        match (stage, event) {
            (Stage::Unbound, Event::Opened(opened)) => {
                assert(symbol_views(Seq::<Symbol>::empty()) =~= Seq::<SymbolView>::empty());
                if !opened {
                    let error = FfiError::LibraryOpenFailed(path.clone());
                    DynamicLibrary::failed(path, exports, order, error)
                } else {
                    let stage = if exports.len() == 0 {
                        Stage::Bound
                    } else {
                        Stage::Resolving
                    };
                    DynamicLibrary { path, exports, order, stage, symbols: Vec::new() }
                }
            },
            (Stage::Resolving, Event::Resolved(address)) => {
                let export = &exports[symbols.len()];
                let resolved = if address == 0 {
                    Err(FfiError::SymbolNotFound(export.name.clone()))
                } else {
                    ffi_function(export.name.as_str(), address, &export.declaration, order)
                };
                match resolved {
                    Ok(symbol) => DynamicLibrary {
                        path,
                        exports,
                        order,
                        stage: Stage::Preparing(symbol),
                        symbols,
                    },
                    Err(error) => DynamicLibrary::failed(path, exports, order, error),
                }
            },
            (Stage::Preparing(pending), Event::Prepared(status)) => match status.check() {
                Ok(()) => {
                    symbols.push(pending);
                    assert(symbol_views(symbols@) =~= before.push(pending@));
                    let stage = if symbols.len() == exports.len() {
                        Stage::Bound
                    } else {
                        Stage::Resolving
                    };
                    DynamicLibrary { path, exports, order, stage, symbols }
                },
                Err(error) => DynamicLibrary::failed(path, exports, order, error),
            },
            (stage, _) => DynamicLibrary { path, exports, order, stage, symbols },
        }
    }

    /// The callables that the facade publishes: one for each declared symbol
    /// once it is bound, in the order of the table; none in any other state.
    pub fn symbols(&self) -> (published: Option<&Vec<Symbol>>)
        ensures
            self@.wf(),
            match self@.state {
                State::Bound { symbols } => published matches Some(callables) && symbol_views(
                    callables@,
                ) == symbols,
                _ => published.is_none(),
            },
    {
        proof {
            use_type_invariant(self);
        }
        match &self.stage {
            Stage::Bound => Some(&self.symbols),
            _ => None,
        }
    }

    /// The failure that ended the binding, if it has failed.
    pub fn error(&self) -> (failure: Option<&FfiError>)
        ensures
            match self@.state {
                State::Failed { fault } => failure matches Some(error) && error@ == fault,
                _ => failure.is_none(),
            },
    {
        match &self.stage {
            Stage::Failed(error) => Some(error),
            _ => None,
        }
    }
}

/// An unbound facade for the library at `path`, with the symbols that
/// `exports` declares, for the machine that the program runs on.
pub fn class_dynamic_library(path: &str, exports: Vec<Export>) -> (library: DynamicLibrary)
    ensures
        library@.path == path@,
        library@.exports == exports@,
        library@.state == State::Unbound,
{
    DynamicLibrary::new(path, exports, ByteOrder::native())
}

} // verus!
