//! The tokens that the scanner hands to the parser.

use vstd::prelude::*;

verus! {

/// A token. A name or a number carries its text, a string literal the
/// bytes that it denotes.
#[derive(Debug, Clone, PartialEq, Eq)]
pub enum Token {
    Eof,
    Let,
    Const,
    Mut,
    Fn,
    Use,
    Extern,
    Return,
    Yield,
    If,
    Else,
    Static,
    Entry,
    Dyn,
    OpenPar,
    ClosePar,
    OpenBrace,
    CloseBrace,
    OpenBracket,
    CloseBracket,
    Colon,
    DblColon,
    Semicolon,
    Dot,
    TplDot,
    Comma,
    Plus,
    Hyphen,
    Star,
    Slash,
    Percent,
    Equals,
    Greater,
    Less,
    SingleArrow,
    DoubleArrow,
    Identifier(String),
    Integer(String),
    Float(String),
    LokStaticString(Vec<u8>),
    LokHeapString(Vec<u8>),
    CStaticString(Vec<u8>),
    CHeapString(Vec<u8>),
    ByteStaticString(Vec<u8>),
    ByteHeapString(Vec<u8>),
}

/// The kind of a token: the token without what it carries.
#[derive(Debug, Clone, Copy, PartialEq, Eq, Structural)]
pub enum TokenDiscriminant {
    Eof,
    Let,
    Const,
    Mut,
    Fn,
    Use,
    Extern,
    Return,
    Yield,
    If,
    Else,
    Static,
    Entry,
    Dyn,
    OpenPar,
    ClosePar,
    OpenBrace,
    CloseBrace,
    OpenBracket,
    CloseBracket,
    Colon,
    DblColon,
    Semicolon,
    Dot,
    TplDot,
    Comma,
    Plus,
    Hyphen,
    Star,
    Slash,
    Percent,
    Equals,
    Greater,
    Less,
    SingleArrow,
    DoubleArrow,
    Identifier,
    Integer,
    Float,
    LokStaticString,
    LokHeapString,
    CStaticString,
    CHeapString,
    ByteStaticString,
    ByteHeapString,
}

/// What the scanner reports of a token: its kind, the length of the text
/// that it matched, and the number of bytes skipped before it.
#[derive(Debug, Clone, Copy, PartialEq, Eq, Structural)]
pub struct TokenMeta {
    pub token: TokenDiscriminant,
    pub length: u32,
    pub skipped: u32,
}

/// Mathematical model of a [`Token`]: its kind, the text that a name or a
/// number carries, and the bytes that a string literal carries. What a
/// kind does not carry is empty.
pub struct TokenView {
    pub kind: TokenDiscriminant,
    pub text: Seq<char>,
    pub bytes: Seq<u8>,
}

impl TokenDiscriminant {
    /// Whether a token of this kind carries its text.
    pub open spec fn has_text(self) -> bool {
        self == TokenDiscriminant::Identifier || self == TokenDiscriminant::Integer || self
            == TokenDiscriminant::Float
    }

    /// Whether a token of this kind carries the bytes of a string.
    pub open spec fn has_bytes(self) -> bool {
        self == TokenDiscriminant::LokStaticString || self == TokenDiscriminant::LokHeapString
            || self == TokenDiscriminant::CStaticString || self == TokenDiscriminant::CHeapString
            || self == TokenDiscriminant::ByteStaticString || self
            == TokenDiscriminant::ByteHeapString
    }

    /// Whether a token of this kind carries its text.
    pub fn carries_text(self) -> (r: bool)
        ensures
            r == self.has_text(),
    {
        match self {
            TokenDiscriminant::Identifier
            | TokenDiscriminant::Integer
            | TokenDiscriminant::Float => true,
            _ => false,
        }
    }

    /// Whether a token of this kind carries the bytes of a string.
    pub fn carries_bytes(self) -> (r: bool)
        ensures
            r == self.has_bytes(),
    {
        match self {
            TokenDiscriminant::LokStaticString
            | TokenDiscriminant::LokHeapString
            | TokenDiscriminant::CStaticString
            | TokenDiscriminant::CHeapString
            | TokenDiscriminant::ByteStaticString
            | TokenDiscriminant::ByteHeapString => true,
            _ => false,
        }
    }
}

/// The token of a kind that carries nothing, or for which what it carries
/// was not read.
pub open spec fn bare(kind: TokenDiscriminant) -> TokenView {
    TokenView { kind, text: Seq::empty(), bytes: Seq::empty() }
}

impl View for Token {
    type V = TokenView;

    open spec fn view(&self) -> TokenView {
        match self {
            Token::Eof => bare(TokenDiscriminant::Eof),
            Token::Let => bare(TokenDiscriminant::Let),
            Token::Const => bare(TokenDiscriminant::Const),
            Token::Mut => bare(TokenDiscriminant::Mut),
            Token::Fn => bare(TokenDiscriminant::Fn),
            Token::Use => bare(TokenDiscriminant::Use),
            Token::Extern => bare(TokenDiscriminant::Extern),
            Token::Return => bare(TokenDiscriminant::Return),
            Token::Yield => bare(TokenDiscriminant::Yield),
            Token::If => bare(TokenDiscriminant::If),
            Token::Else => bare(TokenDiscriminant::Else),
            Token::Static => bare(TokenDiscriminant::Static),
            Token::Entry => bare(TokenDiscriminant::Entry),
            Token::Dyn => bare(TokenDiscriminant::Dyn),
            Token::OpenPar => bare(TokenDiscriminant::OpenPar),
            Token::ClosePar => bare(TokenDiscriminant::ClosePar),
            Token::OpenBrace => bare(TokenDiscriminant::OpenBrace),
            Token::CloseBrace => bare(TokenDiscriminant::CloseBrace),
            Token::OpenBracket => bare(TokenDiscriminant::OpenBracket),
            Token::CloseBracket => bare(TokenDiscriminant::CloseBracket),
            Token::Colon => bare(TokenDiscriminant::Colon),
            Token::DblColon => bare(TokenDiscriminant::DblColon),
            Token::Semicolon => bare(TokenDiscriminant::Semicolon),
            Token::Dot => bare(TokenDiscriminant::Dot),
            Token::TplDot => bare(TokenDiscriminant::TplDot),
            Token::Comma => bare(TokenDiscriminant::Comma),
            Token::Plus => bare(TokenDiscriminant::Plus),
            Token::Hyphen => bare(TokenDiscriminant::Hyphen),
            Token::Star => bare(TokenDiscriminant::Star),
            Token::Slash => bare(TokenDiscriminant::Slash),
            Token::Percent => bare(TokenDiscriminant::Percent),
            Token::Equals => bare(TokenDiscriminant::Equals),
            Token::Greater => bare(TokenDiscriminant::Greater),
            Token::Less => bare(TokenDiscriminant::Less),
            Token::SingleArrow => bare(TokenDiscriminant::SingleArrow),
            Token::DoubleArrow => bare(TokenDiscriminant::DoubleArrow),
            Token::Identifier(text) => TokenView {
                kind: TokenDiscriminant::Identifier,
                text: text@,
                bytes: Seq::empty(),
            },
            Token::Integer(text) => TokenView {
                kind: TokenDiscriminant::Integer,
                text: text@,
                bytes: Seq::empty(),
            },
            Token::Float(text) => TokenView {
                kind: TokenDiscriminant::Float,
                text: text@,
                bytes: Seq::empty(),
            },
            Token::LokStaticString(bytes) => TokenView {
                kind: TokenDiscriminant::LokStaticString,
                text: Seq::empty(),
                bytes: bytes@,
            },
            Token::LokHeapString(bytes) => TokenView {
                kind: TokenDiscriminant::LokHeapString,
                text: Seq::empty(),
                bytes: bytes@,
            },
            Token::CStaticString(bytes) => TokenView {
                kind: TokenDiscriminant::CStaticString,
                text: Seq::empty(),
                bytes: bytes@,
            },
            Token::CHeapString(bytes) => TokenView {
                kind: TokenDiscriminant::CHeapString,
                text: Seq::empty(),
                bytes: bytes@,
            },
            Token::ByteStaticString(bytes) => TokenView {
                kind: TokenDiscriminant::ByteStaticString,
                text: Seq::empty(),
                bytes: bytes@,
            },
            Token::ByteHeapString(bytes) => TokenView {
                kind: TokenDiscriminant::ByteHeapString,
                text: Seq::empty(),
                bytes: bytes@,
            },
        }
    }
}

/// The token that the scanner has matched, by what it reports: the kind,
/// and the text or the bytes if the kind carries them.
pub open spec fn token_of(kind: TokenDiscriminant, text: Seq<char>, bytes: Seq<u8>) -> TokenView {
    TokenView {
        kind,
        text: if kind.has_text() {
            text
        } else {
            Seq::empty()
        },
        bytes: if kind.has_bytes() {
            bytes
        } else {
            Seq::empty()
        },
    }
}

impl Token {
    /// The kind of the token.
    pub fn kind(&self) -> (k: TokenDiscriminant)
        ensures
            k == self@.kind,
    {
        match self {
            Token::Eof => TokenDiscriminant::Eof,
            Token::Let => TokenDiscriminant::Let,
            Token::Const => TokenDiscriminant::Const,
            Token::Mut => TokenDiscriminant::Mut,
            Token::Fn => TokenDiscriminant::Fn,
            Token::Use => TokenDiscriminant::Use,
            Token::Extern => TokenDiscriminant::Extern,
            Token::Return => TokenDiscriminant::Return,
            Token::Yield => TokenDiscriminant::Yield,
            Token::If => TokenDiscriminant::If,
            Token::Else => TokenDiscriminant::Else,
            Token::Static => TokenDiscriminant::Static,
            Token::Entry => TokenDiscriminant::Entry,
            Token::Dyn => TokenDiscriminant::Dyn,
            Token::OpenPar => TokenDiscriminant::OpenPar,
            Token::ClosePar => TokenDiscriminant::ClosePar,
            Token::OpenBrace => TokenDiscriminant::OpenBrace,
            Token::CloseBrace => TokenDiscriminant::CloseBrace,
            Token::OpenBracket => TokenDiscriminant::OpenBracket,
            Token::CloseBracket => TokenDiscriminant::CloseBracket,
            Token::Colon => TokenDiscriminant::Colon,
            Token::DblColon => TokenDiscriminant::DblColon,
            Token::Semicolon => TokenDiscriminant::Semicolon,
            Token::Dot => TokenDiscriminant::Dot,
            Token::TplDot => TokenDiscriminant::TplDot,
            Token::Comma => TokenDiscriminant::Comma,
            Token::Plus => TokenDiscriminant::Plus,
            Token::Hyphen => TokenDiscriminant::Hyphen,
            Token::Star => TokenDiscriminant::Star,
            Token::Slash => TokenDiscriminant::Slash,
            Token::Percent => TokenDiscriminant::Percent,
            Token::Equals => TokenDiscriminant::Equals,
            Token::Greater => TokenDiscriminant::Greater,
            Token::Less => TokenDiscriminant::Less,
            Token::SingleArrow => TokenDiscriminant::SingleArrow,
            Token::DoubleArrow => TokenDiscriminant::DoubleArrow,
            Token::Identifier(_) => TokenDiscriminant::Identifier,
            Token::Integer(_) => TokenDiscriminant::Integer,
            Token::Float(_) => TokenDiscriminant::Float,
            Token::LokStaticString(_) => TokenDiscriminant::LokStaticString,
            Token::LokHeapString(_) => TokenDiscriminant::LokHeapString,
            Token::CStaticString(_) => TokenDiscriminant::CStaticString,
            Token::CHeapString(_) => TokenDiscriminant::CHeapString,
            Token::ByteStaticString(_) => TokenDiscriminant::ByteStaticString,
            Token::ByteHeapString(_) => TokenDiscriminant::ByteHeapString,
        }
    }
}

/// The token that the scanner has matched, with the two counts that the
/// scanner reports along with it. `text` is the text that was matched and
/// `string_value` the bytes of the string literal that was read last; each
/// is used only for a token that carries it.
pub fn lex(meta: TokenMeta, text: String, string_value: Vec<u8>) -> (r: (Token, u32, u32))
    ensures
        r.0@ == token_of(meta.token, text@, string_value@),
        r.1 == meta.length,
        r.2 == meta.skipped,
{
    let token = match meta.token {
        TokenDiscriminant::Eof => Token::Eof,
        TokenDiscriminant::Let => Token::Let,
        TokenDiscriminant::Const => Token::Const,
        TokenDiscriminant::Mut => Token::Mut,
        TokenDiscriminant::Fn => Token::Fn,
        TokenDiscriminant::Use => Token::Use,
        TokenDiscriminant::Extern => Token::Extern,
        TokenDiscriminant::Return => Token::Return,
        TokenDiscriminant::Yield => Token::Yield,
        TokenDiscriminant::If => Token::If,
        TokenDiscriminant::Else => Token::Else,
        TokenDiscriminant::Static => Token::Static,
        TokenDiscriminant::Entry => Token::Entry,
        TokenDiscriminant::Dyn => Token::Dyn,
        TokenDiscriminant::OpenPar => Token::OpenPar,
        TokenDiscriminant::ClosePar => Token::ClosePar,
        TokenDiscriminant::OpenBrace => Token::OpenBrace,
        TokenDiscriminant::CloseBrace => Token::CloseBrace,
        TokenDiscriminant::OpenBracket => Token::OpenBracket,
        TokenDiscriminant::CloseBracket => Token::CloseBracket,
        TokenDiscriminant::Colon => Token::Colon,
        TokenDiscriminant::DblColon => Token::DblColon,
        TokenDiscriminant::Semicolon => Token::Semicolon,
        TokenDiscriminant::Dot => Token::Dot,
        TokenDiscriminant::TplDot => Token::TplDot,
        TokenDiscriminant::Comma => Token::Comma,
        TokenDiscriminant::Plus => Token::Plus,
        TokenDiscriminant::Hyphen => Token::Hyphen,
        TokenDiscriminant::Star => Token::Star,
        TokenDiscriminant::Slash => Token::Slash,
        TokenDiscriminant::Percent => Token::Percent,
        TokenDiscriminant::Equals => Token::Equals,
        TokenDiscriminant::Greater => Token::Greater,
        TokenDiscriminant::Less => Token::Less,
        TokenDiscriminant::SingleArrow => Token::SingleArrow,
        TokenDiscriminant::DoubleArrow => Token::DoubleArrow,
        TokenDiscriminant::Identifier => Token::Identifier(text),
        TokenDiscriminant::Integer => Token::Integer(text),
        TokenDiscriminant::Float => Token::Float(text),
        TokenDiscriminant::LokStaticString => Token::LokStaticString(string_value),
        TokenDiscriminant::LokHeapString => Token::LokHeapString(string_value),
        TokenDiscriminant::CStaticString => Token::CStaticString(string_value),
        TokenDiscriminant::CHeapString => Token::CHeapString(string_value),
        TokenDiscriminant::ByteStaticString => Token::ByteStaticString(string_value),
        TokenDiscriminant::ByteHeapString => Token::ByteHeapString(string_value),
    };
    (token, meta.length, meta.skipped)
}

/// The models of a list of tokens, element by element.
pub open spec fn view_tokens(ts: Seq<Token>) -> Seq<TokenView> {
    Seq::new(ts.len(), |i: int| ts[i]@)
}

} // verus!
