pub mod ast;
pub mod interp;
pub mod lexer;
pub mod numeric;
pub mod parser;
pub mod resolver;
pub mod text;
pub mod token;

use vstd::prelude::*;

verus! {

/// The two classes of failure a program can end with: static errors
/// (lexing, parsing, resolution) and runtime errors.
#[derive(Clone, Copy, Debug, PartialEq, Eq, Structural)]
pub enum ExitCode {
    RunTimeError,
    CompilerError,
}

impl ExitCode {
    /// The process exit status conventionally used for each error class.
    pub fn code(&self) -> (r: i32)
        ensures
            r == (match self {
                ExitCode::CompilerError => 65int,
                ExitCode::RunTimeError => 70int,
            }),
    {
        match self {
            ExitCode::CompilerError => 65,
            ExitCode::RunTimeError => 70,
        }
    }
}

} // verus!
