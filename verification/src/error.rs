//! Why a builder cannot be generated.

use vstd::prelude::*;
use vstd::string::*;

verus! {

#[derive(Debug, Clone, Copy, PartialEq, Eq, Structural)]
pub enum GenerateError {
    /// The input is not a record with named fields.
    UnsupportedShape,
    /// The name given for the entry point is not an identifier.
    MalformedOption,
}

impl GenerateError {
    /// The diagnostic for the build that asked for the builder.
    pub fn message(&self) -> (text: String)
        ensures
            text@ == match *self {
                GenerateError::UnsupportedShape => "`Builder` only supports `struct`."@,
                GenerateError::MalformedOption => "`method_name` must be an identifier."@,
            },
    {
        match self {
            GenerateError::UnsupportedShape => "`Builder` only supports `struct`.".to_owned(),
            GenerateError::MalformedOption => "`method_name` must be an identifier.".to_owned(),
        }
    }
}

} // verus!
