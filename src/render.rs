use vstd::prelude::*;

use crate::text::{append_str, push_char};
use crate::token::{Diagnostic, DiagnosticKind, DiagnosticModel, Kind, Problem, Token, TokenModel, TokenType};

verus! {

pub open spec fn digit_char(d: nat) -> char {
    if d == 0 {
        '0'
    } else if d == 1 {
        '1'
    } else if d == 2 {
        '2'
    } else if d == 3 {
        '3'
    } else if d == 4 {
        '4'
    } else if d == 5 {
        '5'
    } else if d == 6 {
        '6'
    } else if d == 7 {
        '7'
    } else if d == 8 {
        '8'
    } else {
        '9'
    }
}

/// The decimal digits of `n`, without leading zeros.
pub open spec fn decimal(n: nat) -> Seq<char>
    decreases n,
{
    if n < 10 {
        seq![digit_char(n)]
    } else {
        decimal(n / 10).push(digit_char(n % 10))
    }
}

/// The class name that starts the listing line of a token.
pub open spec fn class_name(k: Kind) -> Seq<char> {
    match k {
        Kind::Identifier => "IDENTIFIER"@,
        Kind::Keyword(n) => n,
        Kind::StringLiteral(_) => "STRING"@,
        Kind::NumberLiteral(_) => "NUMBER"@,
        Kind::Operator(n) => n,
        Kind::Punctuation(_) => "PUNCTUATION"@,
        Kind::EOF => "EOF"@,
    }
}

/// The literal value that ends the listing line of a token: the text of a
/// string, the printed value of a number, and `null` for any other class.
pub open spec fn literal_text(k: Kind) -> Seq<char> {
    match k {
        Kind::StringLiteral(v) => v,
        Kind::NumberLiteral(v) => v,
        _ => "null"@,
    }
}

/// The listing line of a token: `<class> <lexeme> <literal>`; for the end of
/// input, `EOF  null`.
pub open spec fn token_line(t: TokenModel) -> Seq<char> {
    class_name(t.kind) + seq![' '] + t.lexeme + seq![' '] + literal_text(t.kind)
}

/// The message of a diagnostic.
pub open spec fn problem_text(p: Problem) -> Seq<char> {
    match p {
        Problem::UnexpectedCharacter(c) => "Unexpected character: "@.push(c),
        Problem::UnterminatedString => "Unterminated string."@,
        Problem::InvalidNumberLiteral(t) => "Invalid number literal: "@ + t,
    }
}

/// The report line of a diagnostic: `[line <N>] Error: <message>`.
pub open spec fn diagnostic_line(d: DiagnosticModel) -> Seq<char> {
    "[line "@ + decimal(d.line) + "] Error: "@ + problem_text(d.kind)
}

fn digit_exec(d: usize) -> (c: char)
    requires
        d < 10,
    ensures
        c == digit_char(d as nat),
{
    if d == 0 {
        '0'
    } else if d == 1 {
        '1'
    } else if d == 2 {
        '2'
    } else if d == 3 {
        '3'
    } else if d == 4 {
        '4'
    } else if d == 5 {
        '5'
    } else if d == 6 {
        '6'
    } else if d == 7 {
        '7'
    } else if d == 8 {
        '8'
    } else {
        '9'
    }
}

fn push_decimal(out: &mut String, n: usize)
    ensures
        final(out)@ == old(out)@ + decimal(n as nat),
    decreases n,
{
    if n >= 10 {
        push_decimal(out, n / 10);
    }
    push_char(out, digit_exec(n % 10));
    assert(final(out)@ =~= old(out)@ + decimal(n as nat));
}

fn class_name_exec(k: &TokenType) -> (r: &str)
    ensures
        r@ == class_name(k@),
{
    match k {
        TokenType::Identifier => "IDENTIFIER",
        TokenType::Keyword(n) => n.as_str(),
        TokenType::StringLiteral(_) => "STRING",
        TokenType::NumberLiteral(_) => "NUMBER",
        TokenType::Operator(n) => n.as_str(),
        TokenType::Punctuation(_) => "PUNCTUATION",
        TokenType::EOF => "EOF",
    }
}

fn literal_exec(k: &TokenType) -> (r: &str)
    ensures
        r@ == literal_text(k@),
{
    match k {
        TokenType::StringLiteral(v) => v.as_str(),
        TokenType::NumberLiteral(v) => v.as_str(),
        _ => "null",
    }
}

/// The line that lists `t` in a token listing.
pub fn describe_token(t: &Token) -> (r: String)
    ensures
        r@ == token_line(t@),
{
    let mut out = String::new();
    append_str(&mut out, class_name_exec(&t.kind));
    push_char(&mut out, ' ');
    append_str(&mut out, t.lexeme.as_str());
    push_char(&mut out, ' ');
    append_str(&mut out, literal_exec(&t.kind));
    assert(out@ =~= token_line(t@));
    out
}

/// The line that reports `d`.
pub fn describe_diagnostic(d: &Diagnostic) -> (r: String)
    ensures
        r@ == diagnostic_line(d@),
{
    let mut out = String::new();
    append_str(&mut out, "[line ");
    push_decimal(&mut out, d.line);
    append_str(&mut out, "] Error: ");
    match &d.kind {
        DiagnosticKind::UnexpectedCharacter(c) => {
            append_str(&mut out, "Unexpected character: ");
            push_char(&mut out, *c);
        },
        DiagnosticKind::UnterminatedString => {
            append_str(&mut out, "Unterminated string.");
        },
        DiagnosticKind::InvalidNumberLiteral(t) => {
            append_str(&mut out, "Invalid number literal: ");
            append_str(&mut out, t.as_str());
        },
    }
    assert(out@ =~= diagnostic_line(d@));
    out
}

} // verus!
