//! Lexical analysis: a single left-to-right scan that turns source text into
//! a token sequence with byte-offset, line and column information.
//!
//! The scan is total except for two unrecoverable lexical shapes — an
//! unsupported numeric prefix (a leading `0` followed by anything but `x`,
//! `X` or `b`) and a second decimal point inside one numeral — which abort
//! the whole pass with a [`LexError`].
pub mod chars;
mod operator;
pub mod scan;

pub use chars::alpha_char;
pub use chars::alnum_char;
pub use chars::space_char;
pub use operator::Operator;
pub use operator::spec_has_eq;
pub use operator::spec_operator_text;
pub use operator::spec_precedence;
pub use scan::spec_check_numeric;
pub use scan::spec_check_operator;
pub use scan::spec_check_symbol;
pub use scan::spec_tokenize;
pub use scan::spec_tokenize_from;
pub use scan::check_numeric;
pub use scan::check_operator;
pub use scan::check_symbol;
pub use scan::is_operator;
pub use scan::tokenize;
pub use scan::tokens_view;

use vstd::prelude::*;

verus! {

/// The reserved words of the source language.
#[derive(Debug, Clone, Copy, PartialEq, Eq, Structural)]
pub enum Reserved {
    Trait,
    Struct,
    Let,
    Mut,
    Function,
    Macro,
    Type,
    If,
    Else,
    Loop,
    While,
    For,
}

/// What a token is: punctuation, an operator, a reserved word, an identifier
/// or numeric literal owning its raw text, or the end-of-stream marker.
#[derive(Debug, Clone)]
pub enum TokenKind {
    OpenParen,
    CloseParen,
    OpenBrace,
    CloseBrace,
    Colon,
    SemiColon,
    Comma,
    Operator(Operator),
    Reserved(Reserved),
    Identifier(String),
    Int(String),
    Float(String),
    FnArrow,
    EOF,
}

/// A token together with the position where it started.
#[derive(Debug, Clone)]
pub struct Token {
    pub kind: TokenKind,
    pub start: usize,
    pub line: usize,
    pub column: usize,
}

/// The two unrecoverable lexical faults. Either aborts the whole pass.
#[derive(Debug, Clone, Copy, PartialEq, Eq, Structural)]
pub enum LexError {
    /// A leading `0` was followed by a character other than `x`, `X` or `b`.
    InvalidNumericPrefix,
    /// A numeral contained a second decimal point.
    DoubleDecimalPoint,
}

/// The mathematical value of a token kind: text fields become character
/// sequences.
pub enum TokenKindV {
    OpenParen,
    CloseParen,
    OpenBrace,
    CloseBrace,
    Colon,
    SemiColon,
    Comma,
    Operator(Operator),
    Reserved(Reserved),
    Identifier(Seq<char>),
    Int(Seq<char>),
    Float(Seq<char>),
    FnArrow,
    EOF,
}

/// The mathematical value of a token.
pub struct TokenV {
    pub kind: TokenKindV,
    pub start: int,
    pub line: int,
    pub column: int,
}

impl View for TokenKind {
    type V = TokenKindV;

    open spec fn view(&self) -> TokenKindV {
        match self {
            TokenKind::OpenParen => TokenKindV::OpenParen,
            TokenKind::CloseParen => TokenKindV::CloseParen,
            TokenKind::OpenBrace => TokenKindV::OpenBrace,
            TokenKind::CloseBrace => TokenKindV::CloseBrace,
            TokenKind::Colon => TokenKindV::Colon,
            TokenKind::SemiColon => TokenKindV::SemiColon,
            TokenKind::Comma => TokenKindV::Comma,
            TokenKind::Operator(op) => TokenKindV::Operator(*op),
            TokenKind::Reserved(r) => TokenKindV::Reserved(*r),
            TokenKind::Identifier(s) => TokenKindV::Identifier(s@),
            TokenKind::Int(s) => TokenKindV::Int(s@),
            TokenKind::Float(s) => TokenKindV::Float(s@),
            TokenKind::FnArrow => TokenKindV::FnArrow,
            TokenKind::EOF => TokenKindV::EOF,
        }
    }
}

impl View for Token {
    type V = TokenV;

    open spec fn view(&self) -> TokenV {
        TokenV {
            kind: self.kind@,
            start: self.start as int,
            line: self.line as int,
            column: self.column as int,
        }
    }
}

} // verus!
