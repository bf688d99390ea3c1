use vstd::prelude::*;
use vstd::string::StringExecFns;
use crate::ast::{Location, location_text};

verus! {

/// Errors of the compiler. Lexical, syntax and type errors come from the
/// front end and pass through the back end unchanged; code-generation
/// errors are the only ones the back end raises.
#[derive(Debug)]
pub enum CompilerError {
    LexicalError(Location, String),
    SyntaxError(Location, String),
    TypeError(Location, String),
    CodeGenError { message: String },
}

/// Result type of the compiler.
pub type Result<T> = std::result::Result<T, CompilerError>;

/// The text of an error, as shown to the user.
pub open spec fn error_text(e: CompilerError) -> Seq<char> {
    match e {
        CompilerError::LexicalError(l, m) => "Lexical error at "@ + location_text(l) + ": "@ + m@,
        CompilerError::SyntaxError(l, m) => "Syntax error at "@ + location_text(l) + ": "@ + m@,
        CompilerError::TypeError(l, m) => "Type error at "@ + location_text(l) + ": "@ + m@,
        CompilerError::CodeGenError { message } => "Code generation error: "@ + message@,
    }
}

impl CompilerError {
    /// Renders the error as a message for the user.
    pub fn to_string(&self) -> (r: String)
        ensures
            r@ == error_text(*self),
    {
        let (mut out, loc, msg) = match self {
            CompilerError::LexicalError(l, m) => (String::from_str("Lexical error at "), l, m),
            CompilerError::SyntaxError(l, m) => (String::from_str("Syntax error at "), l, m),
            CompilerError::TypeError(l, m) => (String::from_str("Type error at "), l, m),
            CompilerError::CodeGenError { message } => {
                let out = String::from_str("Code generation error: ");
                return out.concat(message.as_str());
            },
        };
        out.append(loc.to_string().as_str());
        out.append(": ");
        out.append(msg.as_str());
        out
    }
}

/// Creates a lexical error.
pub fn lexical_error(location: &Location, message: String) -> (r: CompilerError)
    ensures
        r == CompilerError::LexicalError(*location, message),
{
    CompilerError::LexicalError(location.clone(), message)
}

/// Creates a syntax error.
pub fn syntax_error(location: &Location, message: String) -> (r: CompilerError)
    ensures
        r == CompilerError::SyntaxError(*location, message),
{
    CompilerError::SyntaxError(location.clone(), message)
}

/// Creates a type error.
pub fn type_error(location: &Location, message: String) -> (r: CompilerError)
    ensures
        r == CompilerError::TypeError(*location, message),
{
    CompilerError::TypeError(location.clone(), message)
}

} // verus!
