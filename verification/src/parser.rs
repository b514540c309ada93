//! The parser: from a token stream to a program and its diagnostics.
//!
//! The parser descends through the productions of [`crate::grammar`], one
//! method for each. It never stops early: whatever the tokens, it ends at an
//! end marker with a complete program.
//!
//! Repetitions are loops; a method calls itself only through a
//! parenthesised expression, the arguments of a call, a block, or the link
//! after an `else`. So the depth of the calls grows with the nesting of the
//! source, not with its length.

use crate::ast::Program;
use crate::diagnostic::{diagnostic_models, message_text, Diagnostic};
use crate::grammar;
use crate::grammar::{kind_at, token_at, Cursor, DiagnosticModel, Parsed};
use crate::model::ProgramModel;
use crate::token::{end_marker, token_models, Token, TokenKind, TokenModel, TokenType};
use vstd::prelude::*;

verus! {

/// A parser over one token stream, with the position it has reached, the
/// diagnostics it has recorded, and the program once it is parsed.
pub struct Parser {
    tokens: Vec<Token>,
    index: usize,
    program: Option<Program>,
    errors: Vec<Diagnostic>,
    end: Token,
}

impl Parser {
    /// The token stream.
    pub closed spec fn tokens(self) -> Seq<TokenModel> {
        token_models(self.tokens@)
    }

    /// Where the parser stands: its position and its diagnostics.
    pub closed spec fn cursor(self) -> Cursor {
        Cursor { position: self.index as nat, errors: diagnostic_models(self.errors@) }
    }

    /// The position of the next token to read.
    pub open spec fn position(self) -> nat {
        self.cursor().position
    }

    /// The diagnostics recorded so far, in order.
    pub open spec fn diagnostics(self) -> Seq<DiagnosticModel> {
        self.cursor().errors
    }

    /// The program, once the stream is parsed.
    pub closed spec fn parsed(self) -> Option<ProgramModel> {
        match self.program {
            Some(program) => Some(program@),
            None => None,
        }
    }

    /// Whether the position lies within the stream or at its end.
    pub closed spec fn well_formed(self) -> bool {
        &&& self.index <= self.tokens.len()
        &&& self.end@ == end_marker()
    }

    /// Whether this parser is what `before` becomes by the step `step`,
    /// made from the cursor of `before`: the position has moved over the
    /// tokens that the step consumed, the diagnostics are those of the
    /// step, and nothing else has changed.
    pub open spec fn advanced<T>(self, before: Parser, step: Parsed<T>) -> bool {
        &&& self.well_formed()
        &&& self.tokens() == before.tokens()
        &&& self.parsed() == before.parsed()
        &&& self.cursor() == before.cursor().after(step)
    }

    /// The token at the position.
    pub(crate) fn next(&self) -> (token: &Token)
        requires
            self.well_formed(),
        ensures
            token@ == token_at(self.tokens(), self.position()),
    {
        if self.index < self.tokens.len() {
            &self.tokens[self.index]
        } else {
            &self.end
        }
    }

    /// The token after the one at the position.
    pub(crate) fn next_next(&self) -> (token: &Token)
        requires
            self.well_formed(),
        ensures
            token@ == token_at(self.tokens(), self.position() + 1),
    {
        if self.index < self.tokens.len() && self.index + 1 < self.tokens.len() {
            &self.tokens[self.index + 1]
        } else {
            &self.end
        }
    }

    /// The kind of the token at the position.
    pub(crate) fn next_kind(&self) -> (kind: TokenKind)
        requires
            self.well_formed(),
        ensures
            kind == kind_at(self.tokens(), self.position()),
    {
        self.next().get_type().kind()
    }

    /// Records that the token at the position is none of `expected`.
    pub(crate) fn error(&mut self, expected: Vec<TokenKind>)
        requires
            old(self).well_formed(),
        ensures
            final(self).advanced(
                *old(self),
                old(self).cursor().reject((), old(self).tokens(), expected@),
            ),
    {
        let token = self.next();
        let diagnostic = Diagnostic {
            line: token.get_line_nr(),
            column: token.get_line_index(),
            expected,
        };
        let ghost model = diagnostic@;
        self.errors.push(diagnostic);
        assert(self.diagnostics() =~= old(self).diagnostics().push(model));
    }

    /// Requires a token of kind `kind` at the position: consumes it where it
    /// is there, and records a diagnostic where it is not.
    pub(crate) fn eat(&mut self, kind: TokenKind)
        requires
            old(self).well_formed(),
            kind != TokenKind::End,
        ensures
            final(self).advanced(
                *old(self),
                grammar::eat(old(self).tokens(), old(self).cursor(), kind),
            ),
    {
        if self.next_kind() == kind {
            assert(self.index < self.tokens.len());
            self.index = self.index + 1;
        } else {
            let expected = vec![kind];
            assert(expected@ =~= seq![kind]);
            self.error(expected);
        }
    }

    /// The text of the token at the position.
    pub(crate) fn next_text(&self) -> (text: String)
        requires
            self.well_formed(),
        ensures
            text@ == token_at(self.tokens(), self.position()).text,
    {
        match self.next().get_type() {
            TokenType::Id(text) => text.clone(),
            TokenType::Num(text) => text.clone(),
            _ => String::new(),
        }
    }

    /// Moves the position over the token at the position, which is not the
    /// end marker.
    pub(crate) fn skip(&mut self)
        requires
            old(self).well_formed(),
            kind_at(old(self).tokens(), old(self).position()) != TokenKind::End,
        ensures
            final(self).advanced(*old(self), old(self).cursor().accept(())),
    {
        assert(self.index < self.tokens.len());
        self.index = self.index + 1;
    }

    /// Whether this parser holds the parse `result` of its token stream: the
    /// program, the diagnostics, and the position that the parse ended at.
    pub open spec fn holds(self, result: Parsed<ProgramModel>) -> bool {
        &&& self.parsed() == Some(result.node)
        &&& self.cursor() == Cursor::start().after(result)
    }

    /// A parser that has parsed `tokens`.
    ///
    /// The stream need not end in an end marker: where it does not, the
    /// parser reads one after the last token.
    pub fn new(tokens: Vec<Token>) -> (parser: Self)
        ensures
            parser.well_formed(),
            parser.tokens() == token_models(tokens@),
            parser.holds(grammar::program(token_models(tokens@))),
            grammar::program(token_models(tokens@)).node.well_formed(),
            kind_at(parser.tokens(), parser.position()) == TokenKind::End,
    {
        let mut parser = Parser {
            tokens,
            index: 0,
            program: None,
            errors: Vec::new(),
            end: Token::new(TokenType::End, 0, 0),
        };
        parser.parse();
        parser
    }

    /// Parses the token stream from its first token, in place of whatever
    /// this parser held before.
    pub fn parse(&mut self)
        requires
            old(self).well_formed(),
        ensures
            final(self).well_formed(),
            final(self).tokens() == old(self).tokens(),
            final(self).holds(grammar::program(old(self).tokens())),
            grammar::program(old(self).tokens()).node.well_formed(),
            kind_at(final(self).tokens(), final(self).position()) == TokenKind::End,
    {
        self.index = 0;
        self.errors = Vec::new();
        self.program = None;
        assert(self.cursor().errors =~= Seq::empty());
        let program = self.program();
        self.program = Some(program);
    }

    /// The program, once the stream is parsed.
    pub fn get_program(&self) -> (program: &Option<Program>)
        ensures
            match *program {
                Some(parsed) => self.parsed() == Some(parsed@),
                None => self.parsed() is None,
            },
    {
        &self.program
    }

    /// Gives up the parser for its program.
    pub fn into_program(self) -> (program: Option<Program>)
        ensures
            match program {
                Some(parsed) => self.parsed() == Some(parsed@),
                None => self.parsed() is None,
            },
    {
        self.program
    }

    /// The diagnostics recorded so far, in order.
    pub fn get_errors(&self) -> (errors: &Vec<Diagnostic>)
        ensures
            diagnostic_models(errors@) == self.diagnostics(),
    {
        &self.errors
    }

    /// The messages of the diagnostics recorded so far, in order.
    pub fn get_messages(&self) -> (messages: Vec<String>)
        ensures
            messages@.len() == self.diagnostics().len(),
            forall|k: int|
                0 <= k < messages@.len() ==> (#[trigger] messages@[k])@ == message_text(
                    self.diagnostics()[k],
                ),
    {
        let mut messages: Vec<String> = Vec::new();
        let mut k: usize = 0;
        while k < self.errors.len()
            invariant
                k <= self.errors.len(),
                messages@.len() == k,
                forall|n: int|
                    0 <= n < k ==> (#[trigger] messages@[n])@ == message_text(
                        self.diagnostics()[n],
                    ),
            decreases self.errors.len() - k,
        {
            messages.push(self.errors[k].message());
            k = k + 1;
        }
        messages
    }
}

} // verus!
