use vstd::prelude::*;

verus! {

/// The failures of this layer.
#[derive(Clone, Debug)]
pub enum StoolapError {
    /// A failure that the engine reported (connection, parse, plan or execution),
    /// carrying the engine's message unmodified.
    Engine(String),
    /// A host value that no type probe accepts; carries the host's name of its type.
    UnsupportedType(String),
    /// A parameter collection that is neither an ordered sequence nor a mapping.
    BadParameters,
    /// A named parameter set handed to a batch call, which takes positional sets only.
    NamedInBatch,
    /// A script that holds no statement where one is needed.
    NoStatement,
    /// An operation on a transaction that was already committed or rolled back.
    Inactive,
    /// The guard around a transaction was corrupted by an earlier failure.
    Lock,
}

impl StoolapError {
    /// The caller used the layer wrongly; such errors are raised before any engine call.
    pub open spec fn is_usage(&self) -> bool {
        match self {
            StoolapError::UnsupportedType(_) | StoolapError::BadParameters | StoolapError::NamedInBatch
            | StoolapError::Inactive => true,
            _ => false,
        }
    }
}

} // verus!
