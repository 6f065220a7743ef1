use vstd::prelude::*;

verus! {

/// Which guest snippet an execution failure came from.
#[derive(Debug, PartialEq, Eq, Structural, Clone, Copy)]
pub enum Snippet {
    MessagesCode,
    FunctionsCode,
}

/// Why a block definition could not be constructed.
#[derive(Debug, PartialEq)]
pub enum ConstructionError {
    /// A key that is not a recognized field name.
    UnknownKey(String),
    /// A numeric field whose text does not parse; carries the field name.
    InvalidNumeric(String),
    /// An `expected` annotation, which this block kind does not support.
    ExpectedUnsupported,
    MissingTemperature,
    MissingMessagesCode,
}

/// Why the per-run configuration could not be resolved.
#[derive(Debug, PartialEq)]
pub enum ConfigError {
    /// No configuration was supplied for the block at all.
    Missing,
    /// A required option is absent; carries the option name.
    MissingOption(String),
    /// An option holds a value of the wrong type; carries the option name.
    InvalidOption(String),
    /// A provider identifier outside the closed enumeration.
    UnknownProvider(String),
    /// A function-call directive that names no declared function.
    UnknownFunction(String),
}

/// Everything that can abort one block execution.
#[derive(Debug, PartialEq)]
pub enum BlockError {
    Construction(ConstructionError),
    Configuration(ConfigError),
    /// A guest snippet timed out, failed, or returned a bad shape.
    GuestExecution { snippet: Snippet, message: String },
    /// A guest snippet's value has the wrong shape for its role.
    Validation { snippet: Snippet },
    /// The instruction template could not be substituted.
    BadInstructions,
    /// An opaque failure surfaced unchanged from the provider dispatcher.
    Dispatch { message: String },
    /// The dispatcher broke its one-completion contract; carries the count
    /// it returned.
    ContractViolation { completions: usize },
}

} // verus!
