use vstd::prelude::*;

verus! {

/// Every operation of the marshaling layer reports failure through this
/// taxonomy instead of a bare boolean or a process abort.
#[derive(Debug, Clone)]
pub enum BridgeError {
    /// The handle is not registered (never opened, or already closed).
    InvalidHandle,
    /// Caller-supplied data is malformed: a buffer of the wrong size,
    /// a non-positive dimension, a duplicate field name.
    InvalidArgument,
    /// The named table does not exist.
    TableNotFound,
    /// The named column does not exist in the table's schema.
    ColumnNotFound,
    /// The kind/role combination has no engine representation, or the
    /// operation asks for one outside the supported set.
    UnsupportedType,
    /// A payload does not line up with the table's stored schema.
    SchemaMismatch,
    /// An output buffer could not be allocated.
    AllocationFailure,
    /// The engine failed; its message is preserved.
    EngineError(String),
}

impl BridgeError {
    /// A short stable name for the variant, for callers that need to
    /// report the failure as text.
    pub fn name(&self) -> (r: &'static str)
        ensures
            self is InvalidHandle ==> r@ == "invalid handle"@,
            self is InvalidArgument ==> r@ == "invalid argument"@,
            self is TableNotFound ==> r@ == "table not found"@,
            self is ColumnNotFound ==> r@ == "column not found"@,
            self is UnsupportedType ==> r@ == "unsupported type"@,
            self is SchemaMismatch ==> r@ == "schema mismatch"@,
            self is AllocationFailure ==> r@ == "allocation failure"@,
            self is EngineError ==> r@ == "engine error"@,
    {
        match self {
            BridgeError::InvalidHandle => "invalid handle",
            BridgeError::InvalidArgument => "invalid argument",
            BridgeError::TableNotFound => "table not found",
            BridgeError::ColumnNotFound => "column not found",
            BridgeError::UnsupportedType => "unsupported type",
            BridgeError::SchemaMismatch => "schema mismatch",
            BridgeError::AllocationFailure => "allocation failure",
            BridgeError::EngineError(_) => "engine error",
        }
    }
}

} // verus!
