use vstd::prelude::*;

verus! {

/// The class of a token, with what the scanner learned of it.
#[derive(Debug, Clone, PartialEq, Eq)]
pub enum TokenType {
    /// A name that is not a reserved word.
    Identifier,
    /// A reserved word, carrying its canonical name (`CLASS` for `class`).
    Keyword(String),
    /// A string literal, carrying the text between its quotes.
    StringLiteral(String),
    /// A number literal, carrying its printed value: the exact decimal value,
    /// without leading zeros in the integer part and without trailing zeros in
    /// the fraction, which always has at least one digit (`007` prints `7.0`).
    NumberLiteral(String),
    /// An operator or a punctuation character, carrying its canonical name.
    Operator(String),
    /// A punctuation character. The scanner classifies every character of the
    /// single-character table as an operator, so it never produces this class;
    /// the reducer skips it.
    Punctuation(char),
    /// The end of the input: the last token of every scan.
    EOF,
}

/// The mathematical value of a [`TokenType`].
pub enum Kind {
    Identifier,
    Keyword(Seq<char>),
    StringLiteral(Seq<char>),
    NumberLiteral(Seq<char>),
    Operator(Seq<char>),
    Punctuation(char),
    EOF,
}

impl View for TokenType {
    type V = Kind;

    open spec fn view(&self) -> Kind {
        match self {
            TokenType::Identifier => Kind::Identifier,
            TokenType::Keyword(n) => Kind::Keyword(n@),
            TokenType::StringLiteral(s) => Kind::StringLiteral(s@),
            TokenType::NumberLiteral(v) => Kind::NumberLiteral(v@),
            TokenType::Operator(n) => Kind::Operator(n@),
            TokenType::Punctuation(c) => Kind::Punctuation(*c),
            TokenType::EOF => Kind::EOF,
        }
    }
}

/// One lexical unit: the exact text matched, its class and the 1-based line
/// of its first character.
#[derive(Debug, Clone, PartialEq, Eq)]
pub struct Token {
    pub lexeme: String,
    pub kind: TokenType,
    pub line: usize,
}

/// The mathematical value of a [`Token`].
pub struct TokenModel {
    pub lexeme: Seq<char>,
    pub kind: Kind,
    pub line: nat,
}

impl View for Token {
    type V = TokenModel;

    open spec fn view(&self) -> TokenModel {
        TokenModel { lexeme: self.lexeme@, kind: self.kind@, line: self.line as nat }
    }
}

impl Token {
    pub fn new(lexeme: String, kind: TokenType, line: usize) -> (t: Token)
        ensures
            t.lexeme == lexeme,
            t.kind == kind,
            t.line == line,
    {
        Token { lexeme, kind, line }
    }
}

/// What went wrong at a place in the source.
#[derive(Debug, Clone, PartialEq, Eq)]
pub enum DiagnosticKind {
    /// A character that starts no token.
    UnexpectedCharacter(char),
    /// A string literal cut off by a newline or by the end of the input.
    UnterminatedString,
    /// A number literal with a second decimal point, carrying the rejected
    /// text: the whole run of digits and points that it starts.
    InvalidNumberLiteral(String),
}

/// The mathematical value of a [`DiagnosticKind`].
pub enum Problem {
    UnexpectedCharacter(char),
    UnterminatedString,
    InvalidNumberLiteral(Seq<char>),
}

impl View for DiagnosticKind {
    type V = Problem;

    open spec fn view(&self) -> Problem {
        match self {
            DiagnosticKind::UnexpectedCharacter(c) => Problem::UnexpectedCharacter(*c),
            DiagnosticKind::UnterminatedString => Problem::UnterminatedString,
            DiagnosticKind::InvalidNumberLiteral(t) => Problem::InvalidNumberLiteral(t@),
        }
    }
}

/// A non-fatal lexical error and the 1-based line where it was found.
#[derive(Debug, Clone, PartialEq, Eq)]
pub struct Diagnostic {
    pub line: usize,
    pub kind: DiagnosticKind,
}

/// The mathematical value of a [`Diagnostic`].
pub struct DiagnosticModel {
    pub line: nat,
    pub kind: Problem,
}

impl View for Diagnostic {
    type V = DiagnosticModel;

    open spec fn view(&self) -> DiagnosticModel {
        DiagnosticModel { line: self.line as nat, kind: self.kind@ }
    }
}

pub open spec fn token_models(ts: Seq<Token>) -> Seq<TokenModel> {
    ts.map_values(|t: Token| t@)
}

pub open spec fn diagnostic_models(ds: Seq<Diagnostic>) -> Seq<DiagnosticModel> {
    ds.map_values(|d: Diagnostic| d@)
}

/// The tokens and diagnostics of one scan, each in source order.
#[derive(Debug, Clone, PartialEq, Eq)]
pub struct ScanResult {
    pub tokens: Vec<Token>,
    pub diagnostics: Vec<Diagnostic>,
}

/// The mathematical value of a [`ScanResult`].
pub struct ScanModel {
    pub tokens: Seq<TokenModel>,
    pub diagnostics: Seq<DiagnosticModel>,
}

impl View for ScanResult {
    type V = ScanModel;

    open spec fn view(&self) -> ScanModel {
        ScanModel {
            tokens: token_models(self.tokens@),
            diagnostics: diagnostic_models(self.diagnostics@),
        }
    }
}

impl ScanResult {
    /// Whether the scan recorded any diagnostic.
    pub fn has_errors(&self) -> (r: bool)
        ensures
            r == (self@.diagnostics.len() > 0),
    {
        self.diagnostics.len() > 0
    }
}

} // verus!
