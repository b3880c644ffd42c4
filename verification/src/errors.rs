//! The failures that configuring, tokenizing and parsing can end in.

use vstd::prelude::*;

verus! {

/// A failure, with a message for the person who wrote the input.
#[derive(Debug, PartialEq, Eq)]
pub enum Error {
    /// The input or the configuration is malformed: no pattern matches, a
    /// token has no rule, the input ends too early.
    SyntaxError(String),
    /// A rule could not make sense of the operands it was given.
    InterpreterError(String),
}

/// An [`Error`] with its message as a sequence of characters.
pub enum Failure {
    Syntax(Seq<char>),
    Interpreter(Seq<char>),
}

impl Failure {
    /// The message, without the kind.
    pub open spec fn message(self) -> Seq<char> {
        match self {
            Failure::Syntax(m) => m,
            Failure::Interpreter(m) => m,
        }
    }

    /// The kind and the message in one line.
    pub open spec fn line(self) -> Seq<char> {
        match self {
            Failure::Syntax(m) => "Syntax Error: "@ + m,
            Failure::Interpreter(m) => "Interpreter Error: "@ + m,
        }
    }
}

impl View for Error {
    type V = Failure;

    open spec fn view(&self) -> Failure {
        match self {
            Error::SyntaxError(m) => Failure::Syntax(m@),
            Error::InterpreterError(m) => Failure::Interpreter(m@),
        }
    }
}

impl Error {
    /// A syntax error with the given message.
    pub fn syntax(message: &str) -> (e: Error)
        ensures
            e@ == Failure::Syntax(message@),
    {
        Error::SyntaxError(String::from_str(message))
    }

    /// An interpreter error with the given message.
    pub fn interpreter(message: &str) -> (e: Error)
        ensures
            e@ == Failure::Interpreter(message@),
    {
        Error::InterpreterError(String::from_str(message))
    }

    /// The same failure once more.
    pub fn copy(&self) -> (e: Error)
        ensures
            e@ == self@,
    {
        match self {
            Error::SyntaxError(m) => Error::SyntaxError(m.clone()),
            Error::InterpreterError(m) => Error::InterpreterError(m.clone()),
        }
    }

    /// The message, without the kind.
    pub fn message(&self) -> (m: &str)
        ensures
            m@ == self@.message(),
    {
        match self {
            Error::SyntaxError(m) => m.as_str(),
            Error::InterpreterError(m) => m.as_str(),
        }
    }

    /// The kind and the message in one line.
    pub fn describe(&self) -> (line: String)
        ensures
            line@ == self@.line(),
    {
        match self {
            Error::SyntaxError(m) => String::from_str("Syntax Error: ").concat(m.as_str()),
            Error::InterpreterError(m) => String::from_str("Interpreter Error: ").concat(
                m.as_str(),
            ),
        }
    }
}

} // verus!
