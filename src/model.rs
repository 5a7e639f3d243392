use vstd::prelude::*;

use crate::tables::{keyword_name, paired_operator_name, single_char_name};
use crate::text::alphanumeric;
use crate::token::{DiagnosticModel, Kind, Problem, ScanModel, TokenModel};

verus! {

/// One thing the scanner records, in the order it records them.
pub enum Event {
    Emit(TokenModel),
    Report(DiagnosticModel),
}

/// The classes of characters that the scanner consumes in maximal runs.
#[derive(Clone, Copy)]
pub enum Run {
    /// Decimal digits.
    Digits,
    /// What may follow the first character of an identifier.
    IdentifierTail,
    /// What a string literal may hold: anything but a quote or a newline.
    StringBody,
    /// What a line comment may hold: anything but a newline.
    CommentBody,
    /// Digits and decimal points: the extent of a rejected number literal.
    NumberFragment,
}

pub open spec fn is_digit(c: char) -> bool {
    '0' <= c && c <= '9'
}

pub open spec fn starts_identifier(c: char) -> bool {
    ('a' <= c && c <= 'z') || ('A' <= c && c <= 'Z') || c == '_'
}

pub open spec fn is_ascii_alphanumeric(c: char) -> bool {
    ('a' <= c && c <= 'z') || ('A' <= c && c <= 'Z') || is_digit(c)
}

/// Whether `c` may follow the first character of an identifier: an
/// underscore, an ASCII letter or digit, or a character beyond ASCII that
/// Unicode counts as alphabetic or numeric.
pub open spec fn continues_identifier(c: char) -> bool {
    c == '_' || is_ascii_alphanumeric(c) || ('\u{7f}' < c && alphanumeric(c))
}

pub open spec fn in_run(c: char, run: Run) -> bool {
    match run {
        Run::Digits => is_digit(c),
        Run::IdentifierTail => continues_identifier(c),
        Run::StringBody => c != '"' && c != '\n',
        Run::CommentBody => c != '\n',
        Run::NumberFragment => is_digit(c) || c == '.',
    }
}

/// The end of the longest run of `run` characters in `src` that starts at `i`.
pub open spec fn run_end(src: Seq<char>, i: int, run: Run) -> int
    decreases src.len() - i,
{
    if 0 <= i < src.len() && in_run(src[i], run) {
        run_end(src, i + 1, run)
    } else {
        i
    }
}

pub open spec fn strip_leading_zeros(s: Seq<char>) -> Seq<char>
    decreases s.len(),
{
    if s.len() > 0 && s[0] == '0' {
        strip_leading_zeros(s.drop_first())
    } else {
        s
    }
}

pub open spec fn strip_trailing_zeros(s: Seq<char>) -> Seq<char>
    decreases s.len(),
{
    if s.len() > 0 && s.last() == '0' {
        strip_trailing_zeros(s.drop_last())
    } else {
        s
    }
}

/// The printed value of the number whose integer digits are `whole` and whose
/// fraction digits are `fraction`: no superfluous zeros, and at least one
/// digit on each side of the point.
pub open spec fn number_value(whole: Seq<char>, fraction: Seq<char>) -> Seq<char> {
    let w = strip_leading_zeros(whole);
    let f = strip_trailing_zeros(fraction);
    (if w.len() == 0 { seq!['0'] } else { w }) + seq!['.'] + (if f.len() == 0 {
        seq!['0']
    } else {
        f
    })
}

/// The outcome of one step of the scanner at a position: what it records, if
/// anything, where it goes on, and the line counter there.
pub struct Step {
    pub event: Option<Event>,
    pub next: int,
    pub line: nat,
}

pub open spec fn token_event(lexeme: Seq<char>, kind: Kind, line: nat) -> Option<Event> {
    Some(Event::Emit(TokenModel { lexeme, kind, line }))
}

pub open spec fn report_event(kind: Problem, line: nat) -> Option<Event> {
    Some(Event::Report(DiagnosticModel { line, kind }))
}

/// A string literal opened at `pos`: it ends at the first quote, and fails at
/// a newline (which is consumed and counted) or at the end of the input.
pub open spec fn string_step(src: Seq<char>, pos: int, line: nat) -> Step {
    let e = run_end(src, pos + 1, Run::StringBody);
    if e < src.len() && src[e] == '"' {
        Step {
            event: token_event(
                src.subrange(pos, e + 1),
                Kind::StringLiteral(src.subrange(pos + 1, e)),
                line,
            ),
            next: e + 1,
            line,
        }
    } else if e < src.len() {
        Step { event: report_event(Problem::UnterminatedString, line), next: e + 1, line: line + 1 }
    } else {
        Step { event: report_event(Problem::UnterminatedString, line), next: e, line }
    }
}

/// A line comment opened at `pos`: discarded up to and including the newline.
pub open spec fn comment_step(src: Seq<char>, pos: int, line: nat) -> Step {
    let e = run_end(src, pos + 2, Run::CommentBody);
    if e < src.len() {
        Step { event: None, next: e + 1, line: line + 1 }
    } else {
        Step { event: None, next: e, line }
    }
}

/// A number literal that starts at `pos`: digits, then at most one point that
/// is followed by digits. A point after the fraction rejects the literal; the
/// rejected text, after which scanning resumes, is the whole run of digits and
/// points from `pos`.
pub open spec fn number_step(src: Seq<char>, pos: int, line: nat) -> Step {
    let a = run_end(src, pos, Run::Digits);
    if a + 1 < src.len() && src[a] == '.' && is_digit(src[a + 1]) {
        let b = run_end(src, a + 1, Run::Digits);
        if b < src.len() && src[b] == '.' {
            let f = run_end(src, pos, Run::NumberFragment);
            Step {
                event: report_event(Problem::InvalidNumberLiteral(src.subrange(pos, f)), line),
                next: f,
                line,
            }
        } else {
            Step {
                event: token_event(
                    src.subrange(pos, b),
                    Kind::NumberLiteral(
                        number_value(src.subrange(pos, a), src.subrange(a + 1, b)),
                    ),
                    line,
                ),
                next: b,
                line,
            }
        }
    } else {
        Step {
            event: token_event(
                src.subrange(pos, a),
                Kind::NumberLiteral(number_value(src.subrange(pos, a), seq![])),
                line,
            ),
            next: a,
            line,
        }
    }
}

/// A word that starts at `pos`: a reserved word if it is one exactly, else an
/// identifier.
pub open spec fn word_step(src: Seq<char>, pos: int, line: nat) -> Step {
    let e = run_end(src, pos + 1, Run::IdentifierTail);
    let w = src.subrange(pos, e);
    let kind = match keyword_name(w) {
        Some(n) => Kind::Keyword(n),
        None => Kind::Identifier,
    };
    Step { event: token_event(w, kind, line), next: e, line }
}

/// One step of the scanner at `pos`, with the line counter at `line`.
pub open spec fn step(src: Seq<char>, pos: int, line: nat) -> Step {
    let c = src[pos];
    let paired = pos + 1 < src.len() && src[pos + 1] == '=';
    if c == ' ' || c == '\t' || c == '\r' {
        Step { event: None, next: pos + 1, line }
    } else if c == '\n' {
        Step { event: None, next: pos + 1, line: line + 1 }
    } else if c == '"' {
        string_step(src, pos, line)
    } else if c == '/' && pos + 1 < src.len() && src[pos + 1] == '/' {
        comment_step(src, pos, line)
    } else if (c == '=' || c == '!' || c == '<' || c == '>') && paired {
        Step {
            event: token_event(
                src.subrange(pos, pos + 2),
                Kind::Operator(paired_operator_name(c)),
                line,
            ),
            next: pos + 2,
            line,
        }
    } else if is_digit(c) {
        number_step(src, pos, line)
    } else if starts_identifier(c) {
        word_step(src, pos, line)
    } else {
        match single_char_name(seq![c]) {
            Some(n) => Step { event: token_event(seq![c], Kind::Operator(n), line), next: pos + 1, line },
            None => Step {
                event: report_event(Problem::UnexpectedCharacter(c), line),
                next: pos + 1,
                line,
            },
        }
    }
}

pub open spec fn prefix(e: Option<Event>) -> Seq<Event> {
    match e {
        Some(e) => seq![e],
        None => seq![],
    }
}

/// The events recorded from `pos` to the end of `src`, and the line counter
/// at the end.
pub open spec fn lex(src: Seq<char>, pos: int, line: nat) -> (Seq<Event>, nat)
    decreases src.len() - pos,
{
    if pos < 0 || pos >= src.len() {
        (seq![], line)
    } else {
        let s = step(src, pos, line);
        // Never taken: every step consumes at least one character, and none
        // past the end (`lemma_step_advances`).
        if s.next <= pos || s.next > src.len() {
            (seq![], line)
        } else {
            let rest = lex(src, s.next, s.line);
            (prefix(s.event) + rest.0, rest.1)
        }
    }
}

/// The events of a whole scan, which starts at line 1.
pub open spec fn scan_events(src: Seq<char>) -> Seq<Event> {
    lex(src, 0, 1).0
}

pub open spec fn record(m: ScanModel, e: Event) -> ScanModel {
    match e {
        Event::Emit(t) => ScanModel { tokens: m.tokens.push(t), diagnostics: m.diagnostics },
        Event::Report(d) => ScanModel { tokens: m.tokens, diagnostics: m.diagnostics.push(d) },
    }
}

pub open spec fn record_opt(m: ScanModel, e: Option<Event>) -> ScanModel {
    match e {
        Some(e) => record(m, e),
        None => m,
    }
}

/// The tokens and the diagnostics among `ev`, each in order.
pub open spec fn record_all(ev: Seq<Event>) -> ScanModel
    decreases ev.len(),
{
    if ev.len() == 0 {
        ScanModel { tokens: seq![], diagnostics: seq![] }
    } else {
        record(record_all(ev.drop_last()), ev.last())
    }
}

pub open spec fn end_of_input(line: nat) -> TokenModel {
    TokenModel { lexeme: seq![], kind: Kind::EOF, line }
}

/// What scanning `src` yields: the tokens found, then the end of input at the
/// final line; and the diagnostics.
pub open spec fn scan_model(src: Seq<char>) -> ScanModel {
    let (ev, last) = lex(src, 0, 1);
    let m = record_all(ev);
    ScanModel { tokens: m.tokens.push(end_of_input(last)), diagnostics: m.diagnostics }
}

} // verus!
