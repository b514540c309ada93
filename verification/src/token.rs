//! Tokens: the lexical categories, the text that identifiers and integer
//! literals carry, and the position of each token in the source.

use crate::text::{append_decimal, decimal};
use vstd::prelude::*;
use vstd::string::*;

verus! {

/// The lexical category of a token, without the text it may carry.
#[derive(Clone, Copy, PartialEq, Eq, Structural, Debug)]
pub enum TokenKind {
    /// An identifier.
    Id,
    /// An integer literal.
    Num,
    /// `+`.
    Plus,
    /// `-`.
    Min,
    /// `*`.
    Mul,
    /// `/`.
    Div,
    /// `%`.
    Mod,
    /// `=`.
    Eq,
    /// `==`.
    Eqeq,
    /// `<`.
    Lt,
    /// `<=`.
    Lteq,
    /// `>`.
    Gt,
    /// `>=`.
    Gteq,
    /// `(`.
    Lbra,
    /// `)`.
    Rbra,
    /// `[`.
    Lang,
    /// `]`.
    Rang,
    /// `{`.
    Lcur,
    /// `}`.
    Rcur,
    /// `;`.
    Semi,
    /// The keyword `if`.
    If,
    /// The keyword `else`.
    Else,
    /// The keyword `while`.
    While,
    /// The keyword `for`.
    For,
    /// The keyword `return`.
    Return,
    /// The keyword `i8`.
    I8,
    /// The keyword `i16`.
    I16,
    /// The keyword `i32`.
    I32,
    /// The keyword `i64`.
    I64,
    /// The keyword `u8`.
    U8,
    /// The keyword `u16`.
    U16,
    /// The keyword `u32`.
    U32,
    /// The keyword `u64`.
    U64,
    /// The keyword `void`.
    Void,
    /// The keyword `fn`.
    Fn,
    /// `:`.
    Colon,
    /// `->`.
    Arrow,
    /// The end-of-stream marker.
    End,
    /// `,`.
    Comma,
    /// The keyword `let`.
    Let,
    /// A token of no lexical category; the tokenizer never produces it.
    Invalid,
}

/// The name under which a kind appears in diagnostics.
pub open spec fn kind_name(kind: TokenKind) -> Seq<char> {
    match kind {
        TokenKind::Id => "ID"@,
        TokenKind::Num => "NUM"@,
        TokenKind::Plus => "PLUS"@,
        TokenKind::Min => "MIN"@,
        TokenKind::Mul => "MUL"@,
        TokenKind::Div => "DIV"@,
        TokenKind::Mod => "MOD"@,
        TokenKind::Eq => "EQ"@,
        TokenKind::Eqeq => "EQEQ"@,
        TokenKind::Lt => "LT"@,
        TokenKind::Lteq => "LTEQ"@,
        TokenKind::Gt => "GT"@,
        TokenKind::Gteq => "GTEQ"@,
        TokenKind::Lbra => "LBRA"@,
        TokenKind::Rbra => "RBRA"@,
        TokenKind::Lang => "LANG"@,
        TokenKind::Rang => "RANG"@,
        TokenKind::Lcur => "LCUR"@,
        TokenKind::Rcur => "RCUR"@,
        TokenKind::Semi => "SEMI"@,
        TokenKind::If => "IF"@,
        TokenKind::Else => "ELSE"@,
        TokenKind::While => "WHILE"@,
        TokenKind::For => "FOR"@,
        TokenKind::Return => "RET"@,
        TokenKind::I8 => "i8"@,
        TokenKind::I16 => "i16"@,
        TokenKind::I32 => "i32"@,
        TokenKind::I64 => "i64"@,
        TokenKind::U8 => "u8"@,
        TokenKind::U16 => "u16"@,
        TokenKind::U32 => "u32"@,
        TokenKind::U64 => "u64"@,
        TokenKind::Void => "VOID"@,
        TokenKind::Fn => "FN"@,
        TokenKind::Colon => "COLON"@,
        TokenKind::Arrow => "ARROW"@,
        TokenKind::End => "END"@,
        TokenKind::Comma => "COMMA"@,
        TokenKind::Let => "LET"@,
        TokenKind::Invalid => "INVALID"@,
    }
}

impl TokenKind {
    /// The name under which this kind appears in diagnostics.
    pub fn name(&self) -> (name: &'static str)
        ensures
            name@ == kind_name(*self),
    {
        match self {
            TokenKind::Id => "ID",
            TokenKind::Num => "NUM",
            TokenKind::Plus => "PLUS",
            TokenKind::Min => "MIN",
            TokenKind::Mul => "MUL",
            TokenKind::Div => "DIV",
            TokenKind::Mod => "MOD",
            TokenKind::Eq => "EQ",
            TokenKind::Eqeq => "EQEQ",
            TokenKind::Lt => "LT",
            TokenKind::Lteq => "LTEQ",
            TokenKind::Gt => "GT",
            TokenKind::Gteq => "GTEQ",
            TokenKind::Lbra => "LBRA",
            TokenKind::Rbra => "RBRA",
            TokenKind::Lang => "LANG",
            TokenKind::Rang => "RANG",
            TokenKind::Lcur => "LCUR",
            TokenKind::Rcur => "RCUR",
            TokenKind::Semi => "SEMI",
            TokenKind::If => "IF",
            TokenKind::Else => "ELSE",
            TokenKind::While => "WHILE",
            TokenKind::For => "FOR",
            TokenKind::Return => "RET",
            TokenKind::I8 => "i8",
            TokenKind::I16 => "i16",
            TokenKind::I32 => "i32",
            TokenKind::I64 => "i64",
            TokenKind::U8 => "u8",
            TokenKind::U16 => "u16",
            TokenKind::U32 => "u32",
            TokenKind::U64 => "u64",
            TokenKind::Void => "VOID",
            TokenKind::Fn => "FN",
            TokenKind::Colon => "COLON",
            TokenKind::Arrow => "ARROW",
            TokenKind::End => "END",
            TokenKind::Comma => "COMMA",
            TokenKind::Let => "LET",
            TokenKind::Invalid => "INVALID",
        }
    }
}

/// A token type as listings print it: the name of its kind, followed for an
/// identifier or an integer literal by `:` and its text.
pub open spec fn type_text(kind: TokenKind, text: Seq<char>) -> Seq<char> {
    match kind {
        TokenKind::Id => "ID:"@ + text,
        TokenKind::Num => "NUM:"@ + text,
        _ => kind_name(kind),
    }
}

/// What a token is: its kind, together with the source text where the kind
/// is an identifier or an integer literal.
#[derive(PartialEq, Debug)]
pub enum TokenType {
    Id(String),
    Num(String),
    Plus,
    Min,
    Mul,
    Div,
    Mod,
    Eq,
    Eqeq,
    Lt,
    Lteq,
    Gt,
    Gteq,
    Lbra,
    Rbra,
    Lang,
    Rang,
    Lcur,
    Rcur,
    Semi,
    If,
    Else,
    While,
    For,
    Return,
    I8,
    I16,
    I32,
    I64,
    U8,
    U16,
    U32,
    U64,
    Void,
    Fn,
    Colon,
    Arrow,
    End,
    Comma,
    Let,
    Invalid,
}

impl TokenType {
    /// The kind of this token type.
    pub open spec fn kind_of(self) -> TokenKind {
        match self {
            TokenType::Id(_) => TokenKind::Id,
            TokenType::Num(_) => TokenKind::Num,
            TokenType::Plus => TokenKind::Plus,
            TokenType::Min => TokenKind::Min,
            TokenType::Mul => TokenKind::Mul,
            TokenType::Div => TokenKind::Div,
            TokenType::Mod => TokenKind::Mod,
            TokenType::Eq => TokenKind::Eq,
            TokenType::Eqeq => TokenKind::Eqeq,
            TokenType::Lt => TokenKind::Lt,
            TokenType::Lteq => TokenKind::Lteq,
            TokenType::Gt => TokenKind::Gt,
            TokenType::Gteq => TokenKind::Gteq,
            TokenType::Lbra => TokenKind::Lbra,
            TokenType::Rbra => TokenKind::Rbra,
            TokenType::Lang => TokenKind::Lang,
            TokenType::Rang => TokenKind::Rang,
            TokenType::Lcur => TokenKind::Lcur,
            TokenType::Rcur => TokenKind::Rcur,
            TokenType::Semi => TokenKind::Semi,
            TokenType::If => TokenKind::If,
            TokenType::Else => TokenKind::Else,
            TokenType::While => TokenKind::While,
            TokenType::For => TokenKind::For,
            TokenType::Return => TokenKind::Return,
            TokenType::I8 => TokenKind::I8,
            TokenType::I16 => TokenKind::I16,
            TokenType::I32 => TokenKind::I32,
            TokenType::I64 => TokenKind::I64,
            TokenType::U8 => TokenKind::U8,
            TokenType::U16 => TokenKind::U16,
            TokenType::U32 => TokenKind::U32,
            TokenType::U64 => TokenKind::U64,
            TokenType::Void => TokenKind::Void,
            TokenType::Fn => TokenKind::Fn,
            TokenType::Colon => TokenKind::Colon,
            TokenType::Arrow => TokenKind::Arrow,
            TokenType::End => TokenKind::End,
            TokenType::Comma => TokenKind::Comma,
            TokenType::Let => TokenKind::Let,
            TokenType::Invalid => TokenKind::Invalid,
        }
    }

    /// The source text that this token type carries: that of an identifier or
    /// of an integer literal, and nothing for every other kind.
    pub open spec fn text(self) -> Seq<char> {
        match self {
            TokenType::Id(text) => text@,
            TokenType::Num(text) => text@,
            _ => Seq::empty(),
        }
    }

    /// The kind of this token type.
    pub fn kind(&self) -> (kind: TokenKind)
        ensures
            kind == self.kind_of(),
    {
        match self {
            TokenType::Id(_) => TokenKind::Id,
            TokenType::Num(_) => TokenKind::Num,
            TokenType::Plus => TokenKind::Plus,
            TokenType::Min => TokenKind::Min,
            TokenType::Mul => TokenKind::Mul,
            TokenType::Div => TokenKind::Div,
            TokenType::Mod => TokenKind::Mod,
            TokenType::Eq => TokenKind::Eq,
            TokenType::Eqeq => TokenKind::Eqeq,
            TokenType::Lt => TokenKind::Lt,
            TokenType::Lteq => TokenKind::Lteq,
            TokenType::Gt => TokenKind::Gt,
            TokenType::Gteq => TokenKind::Gteq,
            TokenType::Lbra => TokenKind::Lbra,
            TokenType::Rbra => TokenKind::Rbra,
            TokenType::Lang => TokenKind::Lang,
            TokenType::Rang => TokenKind::Rang,
            TokenType::Lcur => TokenKind::Lcur,
            TokenType::Rcur => TokenKind::Rcur,
            TokenType::Semi => TokenKind::Semi,
            TokenType::If => TokenKind::If,
            TokenType::Else => TokenKind::Else,
            TokenType::While => TokenKind::While,
            TokenType::For => TokenKind::For,
            TokenType::Return => TokenKind::Return,
            TokenType::I8 => TokenKind::I8,
            TokenType::I16 => TokenKind::I16,
            TokenType::I32 => TokenKind::I32,
            TokenType::I64 => TokenKind::I64,
            TokenType::U8 => TokenKind::U8,
            TokenType::U16 => TokenKind::U16,
            TokenType::U32 => TokenKind::U32,
            TokenType::U64 => TokenKind::U64,
            TokenType::Void => TokenKind::Void,
            TokenType::Fn => TokenKind::Fn,
            TokenType::Colon => TokenKind::Colon,
            TokenType::Arrow => TokenKind::Arrow,
            TokenType::End => TokenKind::End,
            TokenType::Comma => TokenKind::Comma,
            TokenType::Let => TokenKind::Let,
            TokenType::Invalid => TokenKind::Invalid,
        }
    }

    /// This token type as listings print it: the name of its kind, followed
    /// for an identifier or an integer literal by `:` and its text.
    pub fn to_text(&self) -> (text: String)
        ensures
            text@ == type_text(self.kind_of(), self.text()),
    {
        match self {
            TokenType::Id(name) => {
                let mut text = String::from_str("ID:");
                text.append(name.as_str());
                text
            },
            TokenType::Num(digits) => {
                let mut text = String::from_str("NUM:");
                text.append(digits.as_str());
                text
            },
            _ => String::from_str(self.kind().name()),
        }
    }

    /// The name of this token type's kind, as diagnostics print it.
    pub fn debug_type(&self) -> (name: &'static str)
        ensures
            name@ == kind_name(self.kind_of()),
    {
        self.kind().name()
    }
}

impl Clone for TokenType {
    fn clone(&self) -> (copy: Self)
        ensures
            copy == *self,
    {
        match self {
            TokenType::Id(text) => TokenType::Id(text.clone()),
            TokenType::Num(text) => TokenType::Num(text.clone()),
            TokenType::Plus => TokenType::Plus,
            TokenType::Min => TokenType::Min,
            TokenType::Mul => TokenType::Mul,
            TokenType::Div => TokenType::Div,
            TokenType::Mod => TokenType::Mod,
            TokenType::Eq => TokenType::Eq,
            TokenType::Eqeq => TokenType::Eqeq,
            TokenType::Lt => TokenType::Lt,
            TokenType::Lteq => TokenType::Lteq,
            TokenType::Gt => TokenType::Gt,
            TokenType::Gteq => TokenType::Gteq,
            TokenType::Lbra => TokenType::Lbra,
            TokenType::Rbra => TokenType::Rbra,
            TokenType::Lang => TokenType::Lang,
            TokenType::Rang => TokenType::Rang,
            TokenType::Lcur => TokenType::Lcur,
            TokenType::Rcur => TokenType::Rcur,
            TokenType::Semi => TokenType::Semi,
            TokenType::If => TokenType::If,
            TokenType::Else => TokenType::Else,
            TokenType::While => TokenType::While,
            TokenType::For => TokenType::For,
            TokenType::Return => TokenType::Return,
            TokenType::I8 => TokenType::I8,
            TokenType::I16 => TokenType::I16,
            TokenType::I32 => TokenType::I32,
            TokenType::I64 => TokenType::I64,
            TokenType::U8 => TokenType::U8,
            TokenType::U16 => TokenType::U16,
            TokenType::U32 => TokenType::U32,
            TokenType::U64 => TokenType::U64,
            TokenType::Void => TokenType::Void,
            TokenType::Fn => TokenType::Fn,
            TokenType::Colon => TokenType::Colon,
            TokenType::Arrow => TokenType::Arrow,
            TokenType::End => TokenType::End,
            TokenType::Comma => TokenType::Comma,
            TokenType::Let => TokenType::Let,
            TokenType::Invalid => TokenType::Invalid,
        }
    }
}

/// The mathematical value of a token.
pub struct TokenModel {
    /// The lexical category.
    pub kind: TokenKind,
    /// The source text of an identifier or an integer literal; empty for
    /// every other kind.
    pub text: Seq<char>,
    /// The index of the source line, counted from 0.
    pub line: nat,
    /// The index of the token's first character in its line, counted from 0.
    pub column: nat,
}

/// The marker that ends every token stream. It belongs to no line, and
/// carries the position 0:0.
pub open spec fn end_marker() -> TokenModel {
    TokenModel { kind: TokenKind::End, text: Seq::empty(), line: 0, column: 0 }
}

/// A token as listings print it: `[ line:column:type ]`.
pub open spec fn token_text(token: TokenModel) -> Seq<char> {
    "[ "@ + decimal(token.line) + ":"@ + decimal(token.column) + ":"@ + type_text(
        token.kind,
        token.text,
    ) + " ]"@
}

/// A token: what it is, and where its first character stands in the source.
#[derive(PartialEq, Debug)]
pub struct Token {
    token_type: TokenType,
    line_nr: usize,
    line_index: usize,
}

impl View for Token {
    type V = TokenModel;

    closed spec fn view(&self) -> TokenModel {
        TokenModel {
            kind: self.token_type.kind_of(),
            text: self.token_type.text(),
            line: self.line_nr as nat,
            column: self.line_index as nat,
        }
    }
}

impl Token {
    /// The type of this token.
    pub closed spec fn type_of(self) -> TokenType {
        self.token_type
    }

    /// A token of the given type whose first character is at index
    /// `line_index` of line `line_nr`.
    pub fn new(token_type: TokenType, line_nr: usize, line_index: usize) -> (token: Self)
        ensures
            token.type_of() == token_type,
            token@ == (TokenModel {
                kind: token_type.kind_of(),
                text: token_type.text(),
                line: line_nr as nat,
                column: line_index as nat,
            }),
    {
        Self { token_type, line_nr, line_index }
    }

    /// The type of this token.
    pub fn get_type(&self) -> (token_type: &TokenType)
        ensures
            *token_type == self.type_of(),
            token_type.kind_of() == self@.kind,
            token_type.text() == self@.text,
    {
        &self.token_type
    }

    /// This token as listings print it: `[ line:column:type ]`.
    pub fn to_text(&self) -> (text: String)
        ensures
            text@ == token_text(self@),
    {
        let mut text = String::from_str("[ ");
        append_decimal(&mut text, self.line_nr);
        text.append(":");
        append_decimal(&mut text, self.line_index);
        text.append(":");
        let token_type = self.token_type.to_text();
        text.append(token_type.as_str());
        text.append(" ]");
        text
    }

    /// The index of the line that this token stands in.
    pub fn get_line_nr(&self) -> (line_nr: usize)
        ensures
            line_nr == self@.line,
    {
        self.line_nr
    }

    /// The index of this token's first character in its line.
    pub fn get_line_index(&self) -> (line_index: usize)
        ensures
            line_index == self@.column,
    {
        self.line_index
    }
}

impl Clone for Token {
    fn clone(&self) -> (copy: Self)
        ensures
            copy == *self,
    {
        Self {
            token_type: self.token_type.clone(),
            line_nr: self.line_nr,
            line_index: self.line_index,
        }
    }
}

/// The mathematical values of a sequence of tokens, in order.
pub open spec fn token_models(tokens: Seq<Token>) -> Seq<TokenModel> {
    Seq::new(tokens.len(), |k: int| tokens[k]@)
}

} // verus!
