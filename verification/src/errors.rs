//! The failures that a run of the pipeline can end in.

use vstd::prelude::*;
use crate::text::{decimal, push_decimal};
use crate::tokens::{Token, TokenType, TokenView};

verus! {

/// A failure of one stage of the pipeline.
#[derive(Debug)]
pub enum Error {
    /// The parser reported at least one syntax error.
    Parse,
    /// Evaluation failed; the text says why.
    Runtime(String),
    /// The resolver rejected the program; the text says why.
    Syntax(String),
    /// The lexer reported at least one lexical error.
    Scanner,
}

/// The mathematical model of an [`Error`].
pub enum ErrorView {
    Parse,
    Runtime(Seq<char>),
    Syntax(Seq<char>),
    Scanner,
}

impl View for Error {
    type V = ErrorView;

    open spec fn view(&self) -> ErrorView {
        match self {
            Error::Parse => ErrorView::Parse,
            Error::Runtime(text) => ErrorView::Runtime(text@),
            Error::Syntax(text) => ErrorView::Syntax(text@),
            Error::Scanner => ErrorView::Scanner,
        }
    }
}

/// The text of the error for a name that no scope binds.
pub open spec fn undefined_variable(name: Seq<char>) -> Seq<char> {
    "Undefined variable '"@ + name + "'."@
}

/// The text of the error for a property that an instance lacks.
pub open spec fn undefined_property(name: Seq<char>) -> Seq<char> {
    "Undefined property '"@ + name + "'."@
}

/// Where a token is, as a report says it: at the end, or at its lexeme.
pub open spec fn place(token: TokenView) -> Seq<char> {
    if token.token_type == TokenType::EOF {
        " at end"@
    } else {
        " at '"@ + token.lexeme + "'"@
    }
}

/// The line that reports an error at `token`.
pub open spec fn report(token: TokenView, message: Seq<char>) -> Seq<char> {
    "[line "@ + decimal(token.line as nat) + "] Error"@ + place(token) + ": "@ + message
}

/// The line that reports an error at `token`.
pub fn report_at(token: &Token, message: &str) -> (line: String)
    ensures
        line@ == report(token@, message@),
{
    let mut line = String::from_str("[line ");
    push_decimal(&mut line, token.line);
    line.append("] Error");
    if token.token_type == TokenType::EOF {
        line.append(" at end");
    } else {
        line.append(" at '");
        line.append(token.lexeme.as_str());
        line.append("'");
    }
    line.append(": ");
    line.append(message);
    assert(line@ =~= report(token@, message@));
    line
}

/// What an error says.
pub open spec fn message(error: ErrorView) -> Seq<char> {
    match error {
        ErrorView::Parse => "The program has syntax errors."@,
        ErrorView::Runtime(text) => text,
        ErrorView::Syntax(text) => text,
        ErrorView::Scanner => "The program has lexical errors."@,
    }
}

impl Error {
    /// What the error says.
    pub fn message(&self) -> (text: String)
        ensures
            text@ == message(self@),
    {
        match self {
            Error::Parse => String::from_str("The program has syntax errors."),
            Error::Runtime(text) => text.clone(),
            Error::Syntax(text) => text.clone(),
            Error::Scanner => String::from_str("The program has lexical errors."),
        }
    }

    /// The error for a name that no scope binds.
    pub fn undefined_variable(name: &String) -> (error: Error)
        ensures
            error@ == ErrorView::Runtime(undefined_variable(name@)),
    {
        let mut text = String::from_str("Undefined variable '");
        text.append(name.as_str());
        text.append("'.");
        Error::Runtime(text)
    }

    /// The error for a property that an instance lacks.
    pub fn undefined_property(name: &String) -> (error: Error)
        ensures
            error@ == ErrorView::Runtime(undefined_property(name@)),
    {
        let mut text = String::from_str("Undefined property '");
        text.append(name.as_str());
        text.append("'.");
        Error::Runtime(text)
    }

    /// A runtime error with the text `text`.
    pub fn runtime(text: &str) -> (error: Error)
        ensures
            error@ == ErrorView::Runtime(text@),
    {
        Error::Runtime(String::from_str(text))
    }
}

} // verus!
