use vstd::prelude::*;

verus! {

/// One lexical unit of the C1 language. The grammar compares tokens by
/// variant identity only; literal text and line numbers travel separately.
#[derive(Clone, Copy, PartialEq, Eq, Structural, Debug)]
pub enum C1Token {
    KwIf,
    KwReturn,
    KwPrintf,
    KwVoid,
    KwBoolean,
    KwInt,
    KwFloat,
    LeftParenthesis,
    RightParenthesis,
    LeftBrace,
    RightBrace,
    Semicolon,
    Assign,
    Equal,
    NotEqual,
    LessEqual,
    GreaterEqual,
    Less,
    Greater,
    Plus,
    Minus,
    Asterisk,
    Slash,
    And,
    Or,
    ConstInt,
    ConstFloat,
    ConstBoolean,
    Identifier,
    Unknown,
}

/// Mathematical model of one scanned token: its kind, the source line it
/// starts on, and its literal text as a sequence of characters.
pub struct TokenModel {
    pub kind: C1Token,
    pub line: u32,
    pub text: Seq<char>,
}

/// One physical token with the diagnostic metadata the scanner attaches.
pub struct Token {
    pub kind: C1Token,
    pub line: u32,
    pub text: String,
}

impl View for Token {
    type V = TokenModel;

    open spec fn view(&self) -> TokenModel {
        TokenModel { kind: self.kind, line: self.line, text: self.text@ }
    }
}

/// Outcome of a parse: acceptance, or the first violated expectation as a
/// human-readable diagnostic.
pub type ParseResult = Result<(), String>;

} // verus!
