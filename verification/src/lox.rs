//! The driver: from source text to a program that the interpreter is ready
//! to run.

use vstd::prelude::*;
use crate::errors::{report, Error, ErrorView};
use crate::grammar;
use crate::grammar::SyntaxError;
use crate::interpreter::Interpreter;
use crate::machine;
use crate::machine::{Action, Event, State};
use crate::parser::Parser;
use crate::resolution;
use crate::resolution::Resolving;
use crate::resolver::Resolver;
use crate::scanner;
use crate::scanner::{LexError, Scanner};
use crate::statement::{stmts_view, Stmt, StmtView};
use crate::text::{decimal, push_decimal};
use crate::tokens::{tokens_view, Token, TokenView};

verus! {

/// The exit status after a lexical, syntax or resolution error.
pub const EX_DATAERR: u8 = 65;

/// The exit status after a runtime error.
pub const EX_SOFTWARE: u8 = 70;

/// The exit status after a wrong command line.
pub const EX_USAGE: u8 = 64;

/// The lines that report lexical errors, one for each.
pub open spec fn lex_reports(errors: Seq<LexError>) -> Seq<Seq<char>> {
    errors.map_values(|error: LexError| scanner::lex_report(error))
}

/// The lines that report syntax errors in `tokens`, one for each.
pub open spec fn syntax_reports(tokens: Seq<TokenView>, errors: Seq<SyntaxError>) -> Seq<
    Seq<char>,
> {
    errors.map_values(
        |error: SyntaxError| report(Parser::culprit(tokens, error), grammar::message(error.rule)),
    )
}

/// The texts of a list of lines.
pub open spec fn lines_view(lines: Seq<String>) -> Seq<Seq<char>> {
    lines.map_values(|line: String| line@)
}

/// What a source text whose first character has the offset `base` is: its
/// statements, or, where the lexer or the parser found an error, the kind
/// of error, lexical before syntactic, and the lines that report the
/// lexer's errors and then the parser's.
pub open spec fn compile(source: Seq<char>, base: usize) -> Result<
    Seq<StmtView>,
    (ErrorView, Seq<Seq<char>>),
> {
    let lexed = scanner::scan(source, base, 0, scanner::start());
    let items = grammar::program(lexed.tokens, 0, Seq::empty(), Seq::empty());
    let reports = lex_reports(lexed.errors) + syntax_reports(lexed.tokens, items.errors);
    if lexed.errors.len() > 0 {
        Err((ErrorView::Scanner, reports))
    } else if items.errors.len() > 0 {
        Err((ErrorView::Parse, reports))
    } else {
        Ok(items.statements)
    }
}

/// The line that reports an error on line `line`.
pub open spec fn error_line(line: nat, message: Seq<char>) -> Seq<char> {
    "[line "@ + decimal(line) + "] Error: "@ + message
}

/// The exit status that an error calls for.
pub open spec fn status(error: ErrorView) -> u8 {
    match error {
        ErrorView::Runtime(_) => EX_SOFTWARE,
        _ => EX_DATAERR,
    }
}

/// An interpreter together with what a session needs to know: whether an
/// error has occurred, and the offset at which the next source text begins.
#[derive(Debug)]
pub struct Lox<'a> {
    had_error: bool,
    interpreter: Interpreter<'a>,
    base: usize,
}

impl<'a> Lox<'a> {
    pub closed spec fn wf(&self) -> bool {
        self.interpreter.wf()
    }

    /// The state of the interpreter.
    pub closed spec fn state(&self) -> State {
        self.interpreter@
    }

    /// An error has occurred since the flag was last cleared.
    pub closed spec fn failed(&self) -> bool {
        self.had_error
    }

    /// The offset at which the next source text begins.
    pub closed spec fn base(&self) -> usize {
        self.base
    }

    pub fn new() -> (lox: Self)
        ensures
            lox.wf(),
            lox.state() == machine::initial(),
            !lox.failed(),
            lox.base() == 0,
    {
        Lox { had_error: false, interpreter: Interpreter::new(), base: 0 }
    }

    /// The line that reports an error on line `line`.
    pub fn error(line: usize, message: &str) -> (text: String)
        ensures
            text@ == error_line(line as nat, message@),
    {
        let mut text = String::from_str("[line ");
        push_decimal(&mut text, line);
        text.append("] Error: ");
        text.append(message);
        assert(text@ =~= error_line(line as nat, message@));
        text
    }

    /// The exit status that `error` calls for.
    pub fn exit_code(error: &Error) -> (code: u8)
        ensures
            code == status(error@),
    {
        match error {
            Error::Runtime(_) => EX_SOFTWARE,
            _ => EX_DATAERR,
        }
    }

    /// Whether an error has occurred since the flag was last cleared.
    pub fn had_error(&self) -> (yes: bool)
        ensures
            yes == self.failed(),
    {
        self.had_error
    }

    /// Clears the error flag, as a prompt does after each line.
    pub fn clear_error(&mut self)
        ensures
            !final(self).failed(),
            final(self).state() == old(self).state(),
            final(self).base() == old(self).base(),
            old(self).wf() ==> final(self).wf(),
    {
        self.had_error = false;
    }

    /// The tokens of `source`.
    pub fn tokens(source: &str) -> (tokens: Vec<Token>)
        ensures
            tokens_view(tokens@) == scanner::scan(source@, 0, 0, scanner::start()).tokens,
    {
        let mut scanner = Scanner::based(source, 0);
        scanner.scan_tokens()
    }

    /// Scans and parses `source`.
    ///
    /// Where the lexer or the parser finds an error, the result is the kind
    /// of error and the lines that report every error found, and the error
    /// flag is set. The tokens get their offsets from where the source texts
    /// before this one ended.
    pub fn compile(&mut self, source: &str) -> (result: Result<Vec<Stmt>, (Error, Vec<String>)>)
        ensures
            old(self).wf() ==> final(self).wf(),
            final(self).state() == old(self).state(),
            final(self).base() == scanner::offset(old(self).base(), source@.len() as int + 1),
            final(self).failed() == (old(self).failed() || result is Err),
            match result {
                Ok(statements) => compile(source@, old(self).base()) == Ok::<
                    Seq<StmtView>,
                    (ErrorView, Seq<Seq<char>>),
                >(stmts_view(statements@)),
                Err((error, lines)) => compile(source@, old(self).base()) == Err::<
                    Seq<StmtView>,
                    (ErrorView, Seq<Seq<char>>),
                >((error@, lines_view(lines@))),
            },
    {
        let mut scanner = Scanner::based(source, self.base);
        let tokens = scanner.scan_tokens();
        let count: usize = source.unicode_len();
        self.base = if count < usize::MAX - self.base {
            self.base + count + 1
        } else {
            usize::MAX
        };
        let mut parser = Parser::new(tokens);
        let parsed = parser.parse();
        let mut lines: Vec<String> = Vec::new();
        let lexical = scanner.errors();
        let mut at: usize = 0;
        while at < lexical.len()
            invariant
                at <= lexical.len(),
                lines@.len() == at,
                forall|i: int| 0 <= i < at ==> (#[trigger] lines@[i])@ == scanner::lex_report(
                    lexical@[i],
                ),
            decreases lexical.len() - at,
        {
            lines.push(lexical[at].describe());
            at += 1;
        }
        let syntax = parser.errors();
        let ghost tokens_model = parser.tokens();
        let mut next: usize = 0;
        while next < syntax.len()
            invariant
                next <= syntax.len(),
                parser.wf(),
                tokens_model == parser.tokens(),
                lines@.len() == lexical.len() + next,
                forall|i: int|
                    0 <= i < lexical.len() ==> (#[trigger] lines@[i])@ == scanner::lex_report(
                        lexical@[i],
                    ),
                forall|j: int|
                    0 <= j < next ==> (#[trigger] lines@[lexical.len() + j])@ == report(
                        Parser::culprit(tokens_model, syntax@[j]),
                        grammar::message(syntax@[j].rule),
                    ),
            decreases syntax.len() - next,
        {
            let ghost before = lines@;
            lines.push(parser.describe(syntax[next]));
            assert forall|j: int| 0 <= j < next implies (#[trigger] lines@[lexical.len() + j])@
                == report(
                Parser::culprit(tokens_model, syntax@[j]),
                grammar::message(syntax@[j].rule),
            ) by {
                assert(lines@[lexical.len() + j] == before[lexical.len() + j]);
            }
            next += 1;
        }
        assert(lines_view(lines@) =~= lex_reports(lexical@) + syntax_reports(
            tokens_model,
            syntax@,
        )) by {
            let both = lex_reports(lexical@) + syntax_reports(tokens_model, syntax@);
            assert(lines_view(lines@).len() == both.len());
            assert forall|i: int| 0 <= i < both.len() implies lines_view(lines@)[i] == both[i] by {
                if i >= lexical.len() {
                    assert(lines@[lexical.len() + (i - lexical.len())] == lines@[i]);
                }
            }
        }
        if lexical.len() > 0 {
            self.had_error = true;
            return Err((Error::Scanner, lines));
        }
        match parsed {
            Ok(statements) => Ok(statements),
            Err(error) => {
                self.had_error = true;
                Err((error, lines))
            },
        }
    }

    /// Resolves `statements` and gets the interpreter ready to run them.
    ///
    /// Where the resolver rejects them, the interpreter is left with what it
    /// was doing, and the error flag is set.
    pub fn run(&mut self, statements: &'a Vec<Stmt>) -> (result: Result<(), Error>)
        requires
            old(self).wf(),
        ensures
            final(self).wf(),
            final(self).base() == old(self).base(),
            final(self).failed() == (old(self).failed() || result is Err),
            ({
                let resolved = resolution::resolve_stmts(
                    Resolving {
                        scopes: Seq::empty(),
                        locals: old(self).state().locals,
                        inside_function: false,
                    },
                    stmts_view(statements@),
                    0,
                );
                let noted = State { locals: resolved.state.locals, ..old(self).state() };
                match result {
                    Ok(_) => resolved.error is None && final(self).state() == machine::load(
                        noted,
                        stmts_view(statements@),
                    ),
                    Err(error) => resolved.error == Some(error@) && final(self).state() == noted,
                }
            }),
    {
        let mut resolver = Resolver::new();
        match resolver.resolve_statements(&mut self.interpreter, statements) {
            Ok(_) => {
                self.interpreter.interpret(statements);
                Ok(())
            },
            Err(error) => {
                self.had_error = true;
                Err(error)
            },
        }
    }

    /// One step of the interpreter. A step that fails sets the error flag.
    pub fn step(&mut self, event: Event) -> (action: Action<'a>)
        requires
            old(self).wf(),
        ensures
            final(self).wf(),
            final(self).base() == old(self).base(),
            final(self).state() == machine::step(old(self).state(), event).state,
            action@ == machine::step(old(self).state(), event).action,
            final(self).failed() == (old(self).failed() || action is Failed),
    {
        let action = self.interpreter.step(event);
        if let Action::Failed(_) = &action {
            self.had_error = true;
        }
        action
    }
}

} // verus!
