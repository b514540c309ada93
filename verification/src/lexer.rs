//! The tokenizer: from lines of source text to a stream of tokens.
//!
//! A line is scanned from left to right. White space separates tokens and
//! `//` starts a comment that runs to the end of the line. A character that
//! begins no token is recorded as a lexical error and skipped, so that one
//! pass reports every such character. No token spans two lines.

use crate::chars::{is_alphabetic_char, is_numeric_char, is_whitespace_char};
use crate::token::{
    end_marker, token_models, token_text, Token, TokenKind, TokenModel, TokenType,
};
use vstd::prelude::*;
use vstd::string::*;

verus! {

/// A character that begins no token, with its position in the source.
#[derive(Clone, Copy, PartialEq, Eq, Debug)]
pub struct LexicalError {
    /// The index of the source line, counted from 0.
    pub line: usize,
    /// The index of the character in its line, counted from 0.
    pub column: usize,
    /// The offending character.
    pub character: char,
}

/// The mathematical value of a lexical error.
pub struct LexicalErrorModel {
    /// The index of the source line, counted from 0.
    pub line: nat,
    /// The index of the character in its line, counted from 0.
    pub column: nat,
    /// The offending character.
    pub character: char,
}

impl View for LexicalError {
    type V = LexicalErrorModel;

    open spec fn view(&self) -> LexicalErrorModel {
        LexicalErrorModel {
            line: self.line as nat,
            column: self.column as nat,
            character: self.character,
        }
    }
}

/// The mathematical values of a sequence of lexical errors, in order.
pub open spec fn error_models(errors: Seq<LexicalError>) -> Seq<LexicalErrorModel> {
    Seq::new(errors.len(), |k: int| errors[k]@)
}

/// What scanning yields: the tokens, and the characters that begin none.
pub struct Scanned {
    /// The tokens, in source order.
    pub tokens: Seq<TokenModel>,
    /// The lexical errors, in source order.
    pub errors: Seq<LexicalErrorModel>,
}

impl Scanned {
    /// Nothing scanned.
    pub open spec fn nothing() -> Scanned {
        Scanned { tokens: Seq::empty(), errors: Seq::empty() }
    }

    /// The tokens and errors of `self`, followed by those of `other`.
    pub open spec fn followed_by(self, other: Scanned) -> Scanned {
        Scanned { tokens: self.tokens + other.tokens, errors: self.errors + other.errors }
    }
}

/// Whether an identifier or a keyword may begin with `c`.
pub open spec fn is_identifier_start(c: char) -> bool {
    is_alphabetic_char(c) || c == '_'
}

/// Whether an identifier or a keyword may go on with `c`.
pub open spec fn is_identifier_part(c: char) -> bool {
    is_alphabetic_char(c) || is_numeric_char(c) || c == '_'
}

/// Whether `c` is one of the decimal digits `0` to `9`.
pub open spec fn is_decimal_digit(c: char) -> bool {
    '0' <= c && c <= '9'
}

/// The character at index `i` of `line`, which is that long.
pub open spec fn character(line: Seq<char>, i: nat) -> char {
    line[i as int]
}

/// The character at index `i` of `line`, if the line is that long.
pub open spec fn char_at(line: Seq<char>, i: nat) -> Option<char> {
    if i < line.len() {
        Some(line[i as int])
    } else {
        None
    }
}

/// The number of characters of `line` from index `i` on.
pub open spec fn chars_left(line: Seq<char>, i: nat) -> nat {
    if i < line.len() {
        (line.len() - i) as nat
    } else {
        0
    }
}

/// The length of the longest run of identifier characters that starts at
/// index `i` of `line`.
pub open spec fn identifier_run(line: Seq<char>, i: nat) -> nat
    decreases chars_left(line, i),
{
    if i < line.len() && is_identifier_part(line[i as int]) {
        1 + identifier_run(line, i + 1)
    } else {
        0
    }
}

/// The length of the longest run of decimal digits that starts at index `i`
/// of `line`.
pub open spec fn digit_run(line: Seq<char>, i: nat) -> nat
    decreases chars_left(line, i),
{
    if i < line.len() && is_decimal_digit(line[i as int]) {
        1 + digit_run(line, i + 1)
    } else {
        0
    }
}

/// The kind of the word `text`: that of the keyword it spells, and
/// identifier where it spells none. Keywords are matched case-sensitively.
pub open spec fn word_kind(text: Seq<char>) -> TokenKind {
    if text == "if"@ {
        TokenKind::If
    } else if text == "else"@ {
        TokenKind::Else
    } else if text == "while"@ {
        TokenKind::While
    } else if text == "for"@ {
        TokenKind::For
    } else if text == "i8"@ {
        TokenKind::I8
    } else if text == "i16"@ {
        TokenKind::I16
    } else if text == "i32"@ {
        TokenKind::I32
    } else if text == "i64"@ {
        TokenKind::I64
    } else if text == "u8"@ {
        TokenKind::U8
    } else if text == "u16"@ {
        TokenKind::U16
    } else if text == "u32"@ {
        TokenKind::U32
    } else if text == "u64"@ {
        TokenKind::U64
    } else if text == "void"@ {
        TokenKind::Void
    } else if text == "return"@ {
        TokenKind::Return
    } else if text == "let"@ {
        TokenKind::Let
    } else if text == "fn"@ {
        TokenKind::Fn
    } else {
        TokenKind::Id
    }
}

/// The token that the word `text` makes at the given position: a keyword
/// carries no text, an identifier carries the word.
pub open spec fn word_token(text: Seq<char>, line: nat, column: nat) -> TokenModel {
    TokenModel {
        kind: word_kind(text),
        text: if word_kind(text) == TokenKind::Id {
            text
        } else {
            Seq::empty()
        },
        line,
        column,
    }
}

/// The operator or punctuation token that begins with `c`, where `next` is
/// the character after it: its kind and the number of characters it takes.
/// The longest match wins: `->`, `==`, `<=` and `>=` are preferred to their
/// first characters alone.
pub open spec fn symbol(c: char, next: Option<char>) -> Option<(TokenKind, nat)> {
    if c == ';' {
        Some((TokenKind::Semi, 1nat))
    } else if c == '(' {
        Some((TokenKind::Lbra, 1nat))
    } else if c == ')' {
        Some((TokenKind::Rbra, 1nat))
    } else if c == '[' {
        Some((TokenKind::Lang, 1nat))
    } else if c == ']' {
        Some((TokenKind::Rang, 1nat))
    } else if c == '{' {
        Some((TokenKind::Lcur, 1nat))
    } else if c == '}' {
        Some((TokenKind::Rcur, 1nat))
    } else if c == '+' {
        Some((TokenKind::Plus, 1nat))
    } else if c == '-' {
        if next == Some('>') {
            Some((TokenKind::Arrow, 2nat))
        } else {
            Some((TokenKind::Min, 1nat))
        }
    } else if c == '*' {
        Some((TokenKind::Mul, 1nat))
    } else if c == '/' {
        Some((TokenKind::Div, 1nat))
    } else if c == '%' {
        Some((TokenKind::Mod, 1nat))
    } else if c == '=' {
        if next == Some('=') {
            Some((TokenKind::Eqeq, 2nat))
        } else {
            Some((TokenKind::Eq, 1nat))
        }
    } else if c == '<' {
        if next == Some('=') {
            Some((TokenKind::Lteq, 2nat))
        } else {
            Some((TokenKind::Lt, 1nat))
        }
    } else if c == '>' {
        if next == Some('=') {
            Some((TokenKind::Gteq, 2nat))
        } else {
            Some((TokenKind::Gt, 1nat))
        }
    } else if c == ':' {
        Some((TokenKind::Colon, 1nat))
    } else if c == ',' {
        Some((TokenKind::Comma, 1nat))
    } else {
        None
    }
}

/// The tokens and lexical errors of `line`, which is line `line_nr` of the
/// source, from its character `i` on.
///
/// At each position, in this order: white space is skipped; `//` ends the
/// scan; an operator or punctuation token is taken by longest match; a word
/// runs from an alphabetic character or `_` over all alphanumeric
/// characters and `_` that follow; an integer literal runs from a decimal
/// digit over all decimal digits that follow; any other character is a
/// lexical error, and the scan goes on after it.
pub open spec fn scan(line: Seq<char>, line_nr: nat, i: nat) -> Scanned
    decreases chars_left(line, i),
{
    if i >= line.len() {
        Scanned::nothing()
    } else {
        let c = character(line, i);
        let next = char_at(line, i + 1);
        if is_whitespace_char(c) {
            scan(line, line_nr, i + 1)
        } else if c == '/' && next == Some('/') {
            Scanned::nothing()
        } else if let Some((kind, width)) = symbol(c, next) {
            let token = TokenModel { kind, text: Seq::empty(), line: line_nr, column: i };
            Scanned { tokens: seq![token], errors: Seq::empty() }.followed_by(
                scan(line, line_nr, i + width),
            )
        } else if is_identifier_start(c) {
            let end = i + 1 + identifier_run(line, i + 1);
            let token = word_token(line.subrange(i as int, end as int), line_nr, i);
            Scanned { tokens: seq![token], errors: Seq::empty() }.followed_by(
                scan(line, line_nr, end),
            )
        } else if is_decimal_digit(c) {
            let end = i + 1 + digit_run(line, i + 1);
            let token = TokenModel {
                kind: TokenKind::Num,
                text: line.subrange(i as int, end as int),
                line: line_nr,
                column: i,
            };
            Scanned { tokens: seq![token], errors: Seq::empty() }.followed_by(
                scan(line, line_nr, end),
            )
        } else {
            let error = LexicalErrorModel { line: line_nr, column: i, character: c };
            Scanned { tokens: Seq::empty(), errors: seq![error] }.followed_by(
                scan(line, line_nr, i + 1),
            )
        }
    }
}

/// The tokens and lexical errors of the first `n` lines of `lines`, where
/// line `k` is given the line number `k`.
pub open spec fn scan_lines(lines: Seq<Seq<char>>, n: nat) -> Scanned
    decreases n,
{
    if n == 0 || n > lines.len() {
        Scanned::nothing()
    } else {
        scan_lines(lines, (n - 1) as nat).followed_by(scan(lines[n - 1], (n - 1) as nat, 0))
    }
}

/// The texts of a sequence of strings, in order.
pub open spec fn line_texts(lines: Seq<String>) -> Seq<Seq<char>> {
    Seq::new(lines.len(), |k: int| lines[k]@)
}

/// Whether the two strings hold the same text.
fn same_text(a: &str, b: &str) -> (same: bool)
    ensures
        same == (a@ == b@),
{
    let n = a.unicode_len();
    if n != b.unicode_len() {
        return false;
    }
    let mut k: usize = 0;
    while k < n
        invariant
            n == a@.len(),
            n == b@.len(),
            k <= n,
            forall|j: int| 0 <= j < k ==> a@[j] == b@[j],
        decreases n - k,
    {
        if a.get_char(k) != b.get_char(k) {
            return false;
        }
        k += 1;
    }
    assert(a@ =~= b@);
    true
}

/// Whether `next` holds the character `c`.
fn is_char(next: Option<char>, c: char) -> (same: bool)
    ensures
        same == (next == Some(c)),
{
    match next {
        Some(n) => n == c,
        None => false,
    }
}

/// Whether an identifier or a keyword may begin with `c`.
fn identifier_start(c: char) -> (b: bool)
    ensures
        b == is_identifier_start(c),
{
    c.is_alphabetic() || c == '_'
}

/// Whether an identifier or a keyword may go on with `c`.
fn identifier_part(c: char) -> (b: bool)
    ensures
        b == is_identifier_part(c),
{
    c.is_alphanumeric() || c == '_'
}

/// Whether `c` is one of the decimal digits `0` to `9`.
fn decimal_digit(c: char) -> (b: bool)
    ensures
        b == is_decimal_digit(c),
{
    '0' <= c && c <= '9'
}

/// The end of the longest run of identifier characters that starts at index
/// `from` of `line`, which has `len` characters.
fn identifier_end(line: &str, len: usize, from: usize) -> (end: usize)
    requires
        len == line@.len(),
        from <= len,
    ensures
        end == from + identifier_run(line@, from as nat),
        end <= len,
{
    let mut j = from;
    while j < len && identifier_part(line.get_char(j))
        invariant
            len == line@.len(),
            from <= j <= len,
            j + identifier_run(line@, j as nat) == from + identifier_run(line@, from as nat),
        decreases len - j,
    {
        j += 1;
    }
    j
}

/// The end of the longest run of decimal digits that starts at index `from`
/// of `line`, which has `len` characters.
fn digits_end(line: &str, len: usize, from: usize) -> (end: usize)
    requires
        len == line@.len(),
        from <= len,
    ensures
        end == from + digit_run(line@, from as nat),
        end <= len,
{
    let mut j = from;
    while j < len && decimal_digit(line.get_char(j))
        invariant
            len == line@.len(),
            from <= j <= len,
            j + digit_run(line@, j as nat) == from + digit_run(line@, from as nat),
        decreases len - j,
    {
        j += 1;
    }
    j
}

/// The token type of the word `word`: a keyword, or an identifier that
/// carries the word.
fn word_type(word: &str) -> (token_type: TokenType)
    ensures
        token_type.kind_of() == word_kind(word@),
        token_type.text() == word_token(word@, 0, 0).text,
{
    if same_text(word, "if") {
        TokenType::If
    } else if same_text(word, "else") {
        TokenType::Else
    } else if same_text(word, "while") {
        TokenType::While
    } else if same_text(word, "for") {
        TokenType::For
    } else if same_text(word, "i8") {
        TokenType::I8
    } else if same_text(word, "i16") {
        TokenType::I16
    } else if same_text(word, "i32") {
        TokenType::I32
    } else if same_text(word, "i64") {
        TokenType::I64
    } else if same_text(word, "u8") {
        TokenType::U8
    } else if same_text(word, "u16") {
        TokenType::U16
    } else if same_text(word, "u32") {
        TokenType::U32
    } else if same_text(word, "u64") {
        TokenType::U64
    } else if same_text(word, "void") {
        TokenType::Void
    } else if same_text(word, "return") {
        TokenType::Return
    } else if same_text(word, "let") {
        TokenType::Let
    } else if same_text(word, "fn") {
        TokenType::Fn
    } else {
        TokenType::Id(String::from_str(word))
    }
}

/// The operator or punctuation token that begins with `c`, where `next` is
/// the character after it: its type and the number of characters it takes.
fn symbol_type(c: char, next: Option<char>) -> (found: Option<(TokenType, usize)>)
    ensures
        match found {
            Some((token_type, width)) => {
                &&& symbol(c, next) == Some((token_type.kind_of(), width as nat))
                &&& token_type.text() == Seq::<char>::empty()
            },
            None => symbol(c, next) is None,
        },
{
    if c == ';' {
        Some((TokenType::Semi, 1))
    } else if c == '(' {
        Some((TokenType::Lbra, 1))
    } else if c == ')' {
        Some((TokenType::Rbra, 1))
    } else if c == '[' {
        Some((TokenType::Lang, 1))
    } else if c == ']' {
        Some((TokenType::Rang, 1))
    } else if c == '{' {
        Some((TokenType::Lcur, 1))
    } else if c == '}' {
        Some((TokenType::Rcur, 1))
    } else if c == '+' {
        Some((TokenType::Plus, 1))
    } else if c == '-' {
        if is_char(next, '>') {
            Some((TokenType::Arrow, 2))
        } else {
            Some((TokenType::Min, 1))
        }
    } else if c == '*' {
        Some((TokenType::Mul, 1))
    } else if c == '/' {
        Some((TokenType::Div, 1))
    } else if c == '%' {
        Some((TokenType::Mod, 1))
    } else if c == '=' {
        if is_char(next, '=') {
            Some((TokenType::Eqeq, 2))
        } else {
            Some((TokenType::Eq, 1))
        }
    } else if c == '<' {
        if is_char(next, '=') {
            Some((TokenType::Lteq, 2))
        } else {
            Some((TokenType::Lt, 1))
        }
    } else if c == '>' {
        if is_char(next, '=') {
            Some((TokenType::Gteq, 2))
        } else {
            Some((TokenType::Gt, 1))
        }
    } else if c == ':' {
        Some((TokenType::Colon, 1))
    } else if c == ',' {
        Some((TokenType::Comma, 1))
    } else {
        None
    }
}

/// The tokenizer of one source file: the path of the file, the tokens read
/// so far and the lexical errors met so far.
pub struct Lexer {
    path: String,
    tokens: Vec<Token>,
    errors: Vec<LexicalError>,
}

impl Lexer {
    /// The path of the source file.
    pub closed spec fn path(self) -> Seq<char> {
        self.path@
    }

    /// The tokens read so far.
    pub closed spec fn tokens(self) -> Seq<TokenModel> {
        token_models(self.tokens@)
    }

    /// The lexical errors met so far.
    pub closed spec fn errors(self) -> Seq<LexicalErrorModel> {
        error_models(self.errors@)
    }

    /// A tokenizer for the source file at `path`, which has read nothing yet.
    pub fn new(path: &str) -> (lexer: Self)
        ensures
            lexer.path() == path@,
            lexer.tokens() == Seq::<TokenModel>::empty(),
            lexer.errors() == Seq::<LexicalErrorModel>::empty(),
    {
        let lexer = Self { path: String::from_str(path), tokens: Vec::new(), errors: Vec::new() };
        assert(lexer.tokens() =~= Seq::<TokenModel>::empty());
        assert(lexer.errors() =~= Seq::<LexicalErrorModel>::empty());
        lexer
    }

    /// The path of the source file.
    pub fn get_path(&self) -> (path: &str)
        ensures
            path@ == self.path(),
    {
        self.path.as_str()
    }

    /// The tokens and the lexical errors of `line`, which is line `line_nr`
    /// of the source.
    #[verifier::rlimit(50)]
    pub fn tokenise_line(line: &str, line_nr: usize) -> (scanned: (Vec<Token>, Vec<LexicalError>))
        ensures
            token_models(scanned.0@) == scan(line@, line_nr as nat, 0).tokens,
            error_models(scanned.1@) == scan(line@, line_nr as nat, 0).errors,
    {
        let len = line.unicode_len();
        let mut tokens: Vec<Token> = Vec::new();
        let mut errors: Vec<LexicalError> = Vec::new();
        let mut i: usize = 0;
        assert(token_models(tokens@) + scan(line@, line_nr as nat, 0).tokens =~= scan(
            line@,
            line_nr as nat,
            0,
        ).tokens);
        assert(error_models(errors@) + scan(line@, line_nr as nat, 0).errors =~= scan(
            line@,
            line_nr as nat,
            0,
        ).errors);
        while i < len
            invariant
                len == line@.len(),
                i <= len,
                token_models(tokens@) + scan(line@, line_nr as nat, i as nat).tokens == scan(
                    line@,
                    line_nr as nat,
                    0,
                ).tokens,
                error_models(errors@) + scan(line@, line_nr as nat, i as nat).errors == scan(
                    line@,
                    line_nr as nat,
                    0,
                ).errors,
            decreases len - i,
        {
            let ghost before = scan(line@, line_nr as nat, i as nat);
            let ghost old_tokens = token_models(tokens@);
            let ghost old_errors = error_models(errors@);
            let c = line.get_char(i);
            let next = if i + 1 < len {
                Some(line.get_char(i + 1))
            } else {
                None
            };
            assert(next == char_at(line@, (i + 1) as nat));
            if c.is_whitespace() {
                i = i + 1;
            } else if c == '/' && is_char(next, '/') {
                i = len;
            } else {
                match symbol_type(c, next) {
                    Some((token_type, width)) => {
                        let token = Token::new(token_type, line_nr, i);
                        tokens.push(token);
                        i = i + width;
                        assert(token_models(tokens@) =~= old_tokens.push(token@));
                    },
                    None => {
                        if identifier_start(c) {
                            let end = identifier_end(line, len, i + 1);
                            let word = line.substring_char(i, end);
                            let token = Token::new(word_type(word), line_nr, i);
                            tokens.push(token);
                            i = end;
                            assert(token_models(tokens@) =~= old_tokens.push(token@));
                        } else if decimal_digit(c) {
                            let end = digits_end(line, len, i + 1);
                            let digits = line.substring_char(i, end);
                            let token = Token::new(
                                TokenType::Num(String::from_str(digits)),
                                line_nr,
                                i,
                            );
                            tokens.push(token);
                            i = end;
                            assert(token_models(tokens@) =~= old_tokens.push(token@));
                        } else {
                            let error = LexicalError { line: line_nr, column: i, character: c };
                            errors.push(error);
                            i = i + 1;
                            assert(error_models(errors@) =~= old_errors.push(error@));
                        }
                    },
                }
            }
            let ghost after = scan(line@, line_nr as nat, i as nat);
            assert(token_models(tokens@) + after.tokens =~= old_tokens + before.tokens);
            assert(error_models(errors@) + after.errors =~= old_errors + before.errors);
        }
        assert(token_models(tokens@) =~= token_models(tokens@) + Seq::<TokenModel>::empty());
        assert(error_models(errors@) =~= error_models(errors@) + Seq::<
            LexicalErrorModel,
        >::empty());
        (tokens, errors)
    }

    /// Reads the lines of the source: appends the tokens of `lines` to the
    /// tokens read so far, then the end-of-stream marker, and appends the
    /// lexical errors of `lines` to those met so far.
    pub fn tokenise(&mut self, lines: &Vec<String>)
        ensures
            final(self).path() == old(self).path(),
            final(self).tokens() == old(self).tokens() + scan_lines(
                line_texts(lines@),
                lines@.len(),
            ).tokens + seq![end_marker()],
            final(self).errors() == old(self).errors() + scan_lines(
                line_texts(lines@),
                lines@.len(),
            ).errors,
    {
        let ghost texts = line_texts(lines@);
        let mut nr: usize = 0;
        assert(self.tokens() =~= old(self).tokens() + scan_lines(texts, 0).tokens);
        assert(self.errors() =~= old(self).errors() + scan_lines(texts, 0).errors);
        while nr < lines.len()
            invariant
                nr <= lines.len(),
                texts == line_texts(lines@),
                self.path() == old(self).path(),
                self.tokens() == old(self).tokens() + scan_lines(texts, nr as nat).tokens,
                self.errors() == old(self).errors() + scan_lines(texts, nr as nat).errors,
            decreases lines.len() - nr,
        {
            let ghost tokens_before = self.tokens();
            let ghost errors_before = self.errors();
            let (mut tokens, mut errors) = Lexer::tokenise_line(lines[nr].as_str(), nr);
            let ghost line_tokens = token_models(tokens@);
            let ghost line_errors = error_models(errors@);
            self.tokens.append(&mut tokens);
            self.errors.append(&mut errors);
            assert(self.tokens() =~= tokens_before + line_tokens);
            assert(self.errors() =~= errors_before + line_errors);
            nr = nr + 1;
            assert(texts[nr - 1] == lines@[nr - 1]@);
            assert(self.tokens() =~= old(self).tokens() + scan_lines(texts, nr as nat).tokens);
            assert(self.errors() =~= old(self).errors() + scan_lines(texts, nr as nat).errors);
        }
        let ghost tokens_before = self.tokens();
        let end = Token::new(TokenType::End, 0, 0);
        self.tokens.push(end);
        assert(self.tokens() =~= tokens_before + seq![end_marker()]);
    }

    /// A copy of the tokens read so far.
    pub fn get_tokens(&mut self) -> (tokens: Vec<Token>)
        ensures
            *final(self) == *old(self),
            tokens@ == old(self).tokens_read(),
            token_models(tokens@) == old(self).tokens(),
    {
        let tokens = self.tokens.clone();
        assert(tokens@ =~= self.tokens@);
        tokens
    }

    /// A copy of the lexical errors met so far.
    pub fn get_errors(&self) -> (errors: Vec<LexicalError>)
        ensures
            error_models(errors@) == self.errors(),
    {
        let errors = self.errors.clone();
        assert(errors@ =~= self.errors@);
        errors
    }

    /// The tokens read so far, as they are held.
    pub closed spec fn tokens_read(self) -> Seq<Token> {
        self.tokens@
    }

    /// The tokens read so far as listings print them, one after another,
    /// followed by a line break.
    pub fn to_text(&self) -> (text: String)
        ensures
            text@ == listing(self.tokens(), self.tokens().len()) + "\n"@,
    {
        let mut text = String::new();
        let mut k: usize = 0;
        assert(text@ =~= listing(self.tokens(), 0));
        while k < self.tokens.len()
            invariant
                k <= self.tokens.len(),
                text@ == listing(self.tokens(), k as nat),
            decreases self.tokens.len() - k,
        {
            let token = self.tokens[k].to_text();
            text.append(token.as_str());
            k = k + 1;
        }
        text.append("\n");
        text
    }
}

/// The first `n` tokens of `tokens` as listings print them, one after
/// another.
pub open spec fn listing(tokens: Seq<TokenModel>, n: nat) -> Seq<char>
    decreases n,
{
    if n == 0 {
        Seq::empty()
    } else {
        listing(tokens, (n - 1) as nat) + token_text(tokens[n - 1])
    }
}

/// Whether a token may begin with `c`.
pub open spec fn begins_token(c: char) -> bool {
    symbol(c, None) is Some || is_identifier_start(c) || is_decimal_digit(c)
}

/// Whether the tokens and errors of `found` all stand on line `line_nr`, at
/// columns from `i` on that lie within `line`; the tokens in the order of
/// their columns; and each error at a character of the line that is not
/// white space and begins no token.
pub open spec fn in_source_order(found: Scanned, line: Seq<char>, line_nr: nat, i: nat) -> bool {
    &&& forall|k: int|
        0 <= k < found.tokens.len() ==> (#[trigger] found.tokens[k]).line == line_nr && i
            <= found.tokens[k].column < line.len()
    &&& forall|k: int, m: int|
        0 <= k < m < found.tokens.len() ==> (#[trigger] found.tokens[k]).column < (
        #[trigger] found.tokens[m]).column
    &&& forall|k: int|
        0 <= k < found.errors.len() ==> {
            let error = #[trigger] found.errors[k];
            &&& error.line == line_nr
            &&& i <= error.column < line.len()
            &&& error.character == line[error.column as int]
            &&& !is_whitespace_char(error.character)
            &&& !begins_token(error.character)
        }
}

/// Scanning keeps to the source: every token and every error of a line
/// carries the number of the line and a column within it, the tokens come
/// in the order of their columns, and every error stands at a character
/// that is not white space and begins no token. So a line whose characters
/// are all white space or begin a token has no lexical error.
#[verifier::rlimit(50)]
pub proof fn lemma_scan_in_source_order(line: Seq<char>, line_nr: nat, i: nat)
    ensures
        in_source_order(scan(line, line_nr, i), line, line_nr, i),
    decreases chars_left(line, i),
{
    if i < line.len() {
        let c = line[i as int];
        let next = char_at(line, i + 1);
        let found = scan(line, line_nr, i);
        if is_whitespace_char(c) {
            lemma_scan_in_source_order(line, line_nr, i + 1);
        } else if c == '/' && next == Some('/') {
        } else if let Some((kind, width)) = symbol(c, next) {
            lemma_scan_in_source_order(line, line_nr, i + width);
            let rest = scan(line, line_nr, i + width);
            lemma_one_more_token(found, rest, line, line_nr, i, i + width);
        } else if is_identifier_start(c) {
            let end = i + 1 + identifier_run(line, i + 1);
            lemma_scan_in_source_order(line, line_nr, end);
            let rest = scan(line, line_nr, end);
            lemma_one_more_token(found, rest, line, line_nr, i, end);
        } else if is_decimal_digit(c) {
            let end = i + 1 + digit_run(line, i + 1);
            lemma_scan_in_source_order(line, line_nr, end);
            let rest = scan(line, line_nr, end);
            lemma_one_more_token(found, rest, line, line_nr, i, end);
        } else {
            lemma_scan_in_source_order(line, line_nr, i + 1);
            let rest = scan(line, line_nr, i + 1);
            lemma_error_step(line, line_nr, i);
        }
    }
}

/// Where the character at column `i` is a lexical error, and what is found
/// from the next column on is in source order, so is what is found from
/// column `i` on.
proof fn lemma_error_step(line: Seq<char>, line_nr: nat, i: nat)
    requires
        i < line.len(),
        !is_whitespace_char(line[i as int]),
        !begins_token(line[i as int]),
        in_source_order(scan(line, line_nr, i + 1), line, line_nr, i + 1),
    ensures
        in_source_order(scan(line, line_nr, i), line, line_nr, i),
{
    let c = character(line, i);
    let found = scan(line, line_nr, i);
    let rest = scan(line, line_nr, i + 1);
    let first = LexicalErrorModel { line: line_nr, column: i, character: c };
    assert(symbol(c, char_at(line, i + 1)) is None);
    assert(found.errors =~= seq![first] + rest.errors);
    assert(found.tokens =~= rest.tokens);
    lemma_one_more_error(found, rest, line, line_nr, i);
}

/// An error at column `i`, put before what was found from the next column
/// on, keeps the source order.
proof fn lemma_one_more_error(
    found: Scanned,
    rest: Scanned,
    line: Seq<char>,
    line_nr: nat,
    i: nat,
)
    requires
        i < line.len(),
        !is_whitespace_char(line[i as int]),
        !begins_token(line[i as int]),
        in_source_order(rest, line, line_nr, i + 1),
        found.errors.len() == rest.errors.len() + 1,
        found.errors[0] == (LexicalErrorModel {
            line: line_nr,
            column: i,
            character: line[i as int],
        }),
        found.errors =~= seq![found.errors[0]] + rest.errors,
        found.tokens =~= rest.tokens,
    ensures
        in_source_order(found, line, line_nr, i),
{
    assert forall|k: int| 0 <= k < found.errors.len() implies {
        let error = #[trigger] found.errors[k];
        &&& error.line == line_nr
        &&& i <= error.column < line.len()
        &&& error.character == line[error.column as int]
        &&& !is_whitespace_char(error.character)
        &&& !begins_token(error.character)
    } by {
        if k > 0 {
            assert(found.errors[k] == rest.errors[k - 1]);
        }
    }
}

/// A token at column `i`, put before what was found from column `next` on,
/// keeps the source order.
proof fn lemma_one_more_token(
    found: Scanned,
    rest: Scanned,
    line: Seq<char>,
    line_nr: nat,
    i: nat,
    next: nat,
)
    requires
        i < line.len(),
        i < next,
        in_source_order(rest, line, line_nr, next),
        found.tokens.len() == rest.tokens.len() + 1,
        found.tokens[0].line == line_nr,
        found.tokens[0].column == i,
        found.tokens =~= seq![found.tokens[0]] + rest.tokens,
        found.errors =~= rest.errors,
    ensures
        in_source_order(found, line, line_nr, i),
{
    assert forall|k: int| 0 <= k < found.tokens.len() implies (#[trigger] found.tokens[k]).line
        == line_nr && i <= found.tokens[k].column < line.len() by {
        if k > 0 {
            assert(found.tokens[k] == rest.tokens[k - 1]);
        }
    }
    assert forall|k: int, m: int| 0 <= k < m < found.tokens.len() implies (
    #[trigger] found.tokens[k]).column < (#[trigger] found.tokens[m]).column by {
        assert(found.tokens[m] == rest.tokens[m - 1]);
        if k > 0 {
            assert(found.tokens[k] == rest.tokens[k - 1]);
        }
    }
}

} // verus!
