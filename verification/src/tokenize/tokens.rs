use vstd::prelude::*;

verus! {

/// The kinds of lexical token of the language.
#[derive(Debug, PartialEq, Eq, Clone, Copy, Structural)]
pub enum TokenKey {
    // Keywords
    Return,
    While,
    True,
    False,
    If,
    Function,
    Mixin,
    Variable,
    Constant,
    Import,
    From,
    Export,
    // Generic
    ParentheseLeft,
    ParentheseRight,
    BracketRight,
    BracketLeft,
    CurlyBraceRight,
    CurlyBraceLeft,
    DoubleColon,
    SemiColon,
    Colon,
    Comma,
    // Expression related
    Addition,
    Subtraction,
    Multiplication,
    Division,
    Assign,
    Power,
    AdditionAssign,
    SubtractAssign,
    Equals,
    NotEquals,
    GreaterThan,
    GreaterThanOrEquals,
    LessThan,
    LessThanOrEquals,
    Not,
    And,
    Or,
    // Values
    PrimitiveNumber,
    PrimitiveString,
    Keyword,
}

/// A token with its 1-based line and column, and its text where the kind
/// carries one (numbers, strings and plain words).
#[derive(Debug, PartialEq, Clone)]
pub struct Token {
    pub key: TokenKey,
    pub ln: usize,
    pub col: usize,
    pub raw: Option<String>,
}

/// What a token is, with its text as a sequence of characters.
pub struct TokenV {
    pub key: TokenKey,
    pub ln: usize,
    pub col: usize,
    pub raw: Option<Seq<char>>,
}

/// The text of a token as a sequence of characters.
pub open spec fn raw_view(raw: Option<String>) -> Option<Seq<char>> {
    match raw {
        Some(s) => Some(s@),
        None => None,
    }
}

impl View for Token {
    type V = TokenV;

    open spec fn view(&self) -> TokenV {
        TokenV { key: self.key, ln: self.ln, col: self.col, raw: raw_view(self.raw) }
    }
}

/// What the literal-bearing kinds are: the tokens that carry their text.
pub open spec fn carries_text(key: TokenKey) -> bool {
    key == TokenKey::PrimitiveNumber || key == TokenKey::PrimitiveString || key == TokenKey::Keyword
}

/// The views of a sequence of tokens.
pub open spec fn token_views(ts: Seq<Token>) -> Seq<TokenV> {
    ts.map_values(|t: Token| t@)
}

} // verus!
