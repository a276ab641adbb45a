use vstd::prelude::*;
use vstd::string::StringExecFns;

verus! {

/// The error taxonomy of the analysis core.
///
/// The type checker, the inference engine and the optimizer report every
/// violation as a `Type` error carrying a description; the other variants
/// exist for the surrounding tooling (parser, interpreter, I/O) that feeds
/// this core.
#[derive(Debug)]
pub enum SlangError {
    Syntax(String),
    Type(String),
    Runtime(String),
    IO(String),
}

impl SlangError {
    /// A human-readable rendering of the error, prefixed with its category.
    pub fn display_string(&self) -> (r: String)
        ensures
            match self {
                SlangError::Syntax(m) => r@ == "Syntax error: "@ + m@,
                SlangError::Type(m) => r@ == "Type error: "@ + m@,
                SlangError::Runtime(m) => r@ == "Runtime error: "@ + m@,
                SlangError::IO(m) => r@ == "IO error: "@ + m@,
            },
    {
        match self {
            SlangError::Syntax(msg) => String::from_str("Syntax error: ").concat(msg.as_str()),
            SlangError::Type(msg) => String::from_str("Type error: ").concat(msg.as_str()),
            SlangError::Runtime(msg) => String::from_str("Runtime error: ").concat(msg.as_str()),
            SlangError::IO(msg) => String::from_str("IO error: ").concat(msg.as_str()),
        }
    }
}

} // verus!
