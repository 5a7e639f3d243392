use vstd::prelude::*;

use crate::model::{
    comment_step, in_run, is_digit, lex, number_step, number_value, prefix, record, record_all,
    record_opt, run_end, scan_model, step, string_step, strip_leading_zeros, strip_trailing_zeros,
    word_step, Event, Run,
};
use crate::tables::{get_reserved_keyword, get_single_char_tokens, paired_operator};
use crate::text::{chars_of, is_alphanumeric, push_char, text_of};
use crate::token::{
    diagnostic_models, token_models, Diagnostic, DiagnosticKind, ScanResult, Token, TokenType,
};

verus! {

fn in_run_exec(c: char, run: Run) -> (r: bool)
    ensures
        r == in_run(c, run),
{
    match run {
        Run::Digits => '0' <= c && c <= '9',
        Run::IdentifierTail => {
            c == '_' || ('a' <= c && c <= 'z') || ('A' <= c && c <= 'Z') || ('0' <= c && c <= '9')
                || ('\u{7f}' < c && is_alphanumeric(c))
        },
        Run::StringBody => c != '"' && c != '\n',
        Run::CommentBody => c != '\n',
        Run::NumberFragment => ('0' <= c && c <= '9') || c == '.',
    }
}

/// The end of the longest run of `run` characters that starts at `i`.
fn find_run_end(src: &Vec<char>, i: usize, run: Run) -> (r: usize)
    requires
        i <= src@.len(),
    ensures
        r as int == run_end(src@, i as int, run),
        i <= r <= src@.len(),
        i < src@.len() && in_run(src@[i as int], run) ==> i < r,
{
    let mut j = i;
    while j < src.len() && in_run_exec(src[j], run)
        invariant
            i <= j <= src@.len(),
            run_end(src@, i as int, run) == run_end(src@, j as int, run),
        decreases src@.len() - j,
    {
        j = j + 1;
    }
    j
}

/// Appends `src[start..end]` to `out`.
fn append_chars(out: &mut String, src: &Vec<char>, start: usize, end: usize)
    requires
        start <= end <= src@.len(),
    ensures
        final(out)@ == old(out)@ + src@.subrange(start as int, end as int),
{
    let mut i: usize = start;
    while i < end
        invariant
            start <= i <= end <= src@.len(),
            out@ == old(out)@ + src@.subrange(start as int, i as int),
        decreases end - i,
    {
        push_char(out, src[i]);
        assert(src@.subrange(start as int, i + 1) =~= src@.subrange(start as int, i as int).push(
            src@[i as int],
        ));
        i = i + 1;
    }
}

/// The printed value of the number with integer digits `src[ws..we]` and
/// fraction digits `src[fs..fe]`.
fn printed_number(src: &Vec<char>, ws: usize, we: usize, fs: usize, fe: usize) -> (r: String)
    requires
        ws <= we <= src@.len(),
        fs <= fe <= src@.len(),
    ensures
        r@ == number_value(
            src@.subrange(ws as int, we as int),
            src@.subrange(fs as int, fe as int),
        ),
{
    let mut i = ws;
    while i < we && src[i] == '0'
        invariant
            ws <= i <= we <= src@.len(),
            strip_leading_zeros(src@.subrange(ws as int, we as int)) == strip_leading_zeros(
                src@.subrange(i as int, we as int),
            ),
        decreases we - i,
    {
        assert(src@.subrange(i as int, we as int).drop_first() =~= src@.subrange(
            i + 1,
            we as int,
        ));
        i = i + 1;
    }
    let mut j = fe;
    while j > fs && src[j - 1] == '0'
        invariant
            fs <= j <= fe <= src@.len(),
            strip_trailing_zeros(src@.subrange(fs as int, fe as int)) == strip_trailing_zeros(
                src@.subrange(fs as int, j as int),
            ),
        decreases j - fs,
    {
        assert(src@.subrange(fs as int, j as int).drop_last() =~= src@.subrange(
            fs as int,
            j - 1,
        ));
        j = j - 1;
    }
    let ghost w = src@.subrange(i as int, we as int);
    let ghost f = src@.subrange(fs as int, j as int);
    assert(strip_leading_zeros(w) == w);
    assert(strip_trailing_zeros(f) == f);
    let mut out = String::new();
    if i == we {
        push_char(&mut out, '0');
    } else {
        append_chars(&mut out, src, i, we);
    }
    push_char(&mut out, '.');
    if j == fs {
        push_char(&mut out, '0');
    } else {
        append_chars(&mut out, src, fs, j);
    }
    assert(out@ =~= number_value(
        src@.subrange(ws as int, we as int),
        src@.subrange(fs as int, fe as int),
    ));
    out
}

fn emit(out: &mut ScanResult, t: Token)
    ensures
        final(out)@ == record(old(out)@, Event::Emit(t@)),
{
    out.tokens.push(t);
    assert(token_models(out.tokens@) =~= token_models(old(out).tokens@).push(t@));
}

fn report(out: &mut ScanResult, d: Diagnostic)
    ensures
        final(out)@ == record(old(out)@, Event::Report(d@)),
{
    out.diagnostics.push(d);
    assert(diagnostic_models(out.diagnostics@) =~= diagnostic_models(
        old(out).diagnostics@,
    ).push(d@));
}

/// A string literal opened by the quote at `pos`.
fn scan_string(src: &Vec<char>, pos: usize, line: usize, out: &mut ScanResult) -> (r: (usize, usize))
    requires
        pos < src@.len() < usize::MAX,
        1 <= line <= pos + 1,
        src@[pos as int] == '"',
    ensures
        ({
            let s = string_step(src@, pos as int, line as nat);
            &&& r.0 == s.next
            &&& r.1 == s.line
            &&& final(out)@ == record_opt(old(out)@, s.event)
        }),
        pos < r.0 <= src@.len(),
        line <= r.1 <= r.0 + 1,
{
    let e = find_run_end(src, pos + 1, Run::StringBody);
    if e < src.len() && src[e] == '"' {
        let lexeme = text_of(src, pos, e + 1);
        let value = text_of(src, pos + 1, e);
        emit(out, Token::new(lexeme, TokenType::StringLiteral(value), line));
        (e + 1, line)
    } else if e < src.len() {
        report(out, Diagnostic { line, kind: DiagnosticKind::UnterminatedString });
        (e + 1, line + 1)
    } else {
        report(out, Diagnostic { line, kind: DiagnosticKind::UnterminatedString });
        (e, line)
    }
}

/// A line comment opened by the two slashes at `pos`.
fn skip_comment(src: &Vec<char>, pos: usize, line: usize) -> (r: (usize, usize))
    requires
        pos + 1 < src@.len() < usize::MAX,
        1 <= line <= pos + 1,
    ensures
        ({
            let s = comment_step(src@, pos as int, line as nat);
            r.0 == s.next && r.1 == s.line && s.event is None
        }),
        pos < r.0 <= src@.len(),
        line <= r.1 <= r.0 + 1,
{
    let e = find_run_end(src, pos + 2, Run::CommentBody);
    if e < src.len() {
        (e + 1, line + 1)
    } else {
        (e, line)
    }
}

/// A number literal that starts with the digit at `pos`.
fn scan_number(src: &Vec<char>, pos: usize, line: usize, out: &mut ScanResult) -> (r: (usize, usize))
    requires
        pos < src@.len() < usize::MAX,
        1 <= line <= pos + 1,
        is_digit(src@[pos as int]),
    ensures
        ({
            let s = number_step(src@, pos as int, line as nat);
            &&& r.0 == s.next
            &&& r.1 == s.line
            &&& final(out)@ == record_opt(old(out)@, s.event)
        }),
        pos < r.0 <= src@.len(),
        r.1 == line,
{
    let a = find_run_end(src, pos, Run::Digits);
    if a + 1 < src.len() && src[a] == '.' && '0' <= src[a + 1] && src[a + 1] <= '9' {
        let b = find_run_end(src, a + 1, Run::Digits);
        if b < src.len() && src[b] == '.' {
            let f = find_run_end(src, pos, Run::NumberFragment);
            let text = text_of(src, pos, f);
            report(out, Diagnostic { line, kind: DiagnosticKind::InvalidNumberLiteral(text) });
            (f, line)
        } else {
            let lexeme = text_of(src, pos, b);
            let value = printed_number(src, pos, a, a + 1, b);
            emit(out, Token::new(lexeme, TokenType::NumberLiteral(value), line));
            (b, line)
        }
    } else {
        let lexeme = text_of(src, pos, a);
        let value = printed_number(src, pos, a, a, a);
        assert(src@.subrange(a as int, a as int) =~= Seq::<char>::empty());
        emit(out, Token::new(lexeme, TokenType::NumberLiteral(value), line));
        (a, line)
    }
}

/// An identifier or a reserved word that starts at `pos`.
fn scan_word(src: &Vec<char>, pos: usize, line: usize, out: &mut ScanResult) -> (r: (usize, usize))
    requires
        pos < src@.len() < usize::MAX,
        1 <= line <= pos + 1,
    ensures
        ({
            let s = word_step(src@, pos as int, line as nat);
            &&& r.0 == s.next
            &&& r.1 == s.line
            &&& final(out)@ == record_opt(old(out)@, s.event)
        }),
        pos < r.0 <= src@.len(),
        r.1 == line,
{
    let e = find_run_end(src, pos + 1, Run::IdentifierTail);
    let word = text_of(src, pos, e);
    let kind = match get_reserved_keyword(word.as_str()) {
        Some(name) => TokenType::Keyword(name.to_owned()),
        None => TokenType::Identifier,
    };
    emit(out, Token::new(word, kind, line));
    (e, line)
}

/// One step of the scanner at `pos`: records what the step finds in `out` and
/// returns the position and line counter where scanning goes on.
fn scan_step(src: &Vec<char>, pos: usize, line: usize, out: &mut ScanResult) -> (r: (usize, usize))
    requires
        pos < src@.len() < usize::MAX,
        1 <= line <= pos + 1,
    ensures
        ({
            let s = step(src@, pos as int, line as nat);
            &&& r.0 == s.next
            &&& r.1 == s.line
            &&& final(out)@ == record_opt(old(out)@, s.event)
        }),
        pos < r.0 <= src@.len(),
        line <= r.1 <= r.0 + 1,
{
    let c = src[pos];
    let paired = pos + 1 < src.len() && src[pos + 1] == '=';
    if c == ' ' || c == '\t' || c == '\r' {
        (pos + 1, line)
    } else if c == '\n' {
        (pos + 1, line + 1)
    } else if c == '"' {
        scan_string(src, pos, line, out)
    } else if c == '/' && pos + 1 < src.len() && src[pos + 1] == '/' {
        skip_comment(src, pos, line)
    } else if (c == '=' || c == '!' || c == '<' || c == '>') && paired {
        let lexeme = text_of(src, pos, pos + 2);
        let name = paired_operator(c).to_owned();
        emit(out, Token::new(lexeme, TokenType::Operator(name), line));
        (pos + 2, line)
    } else if '0' <= c && c <= '9' {
        scan_number(src, pos, line, out)
    } else if ('a' <= c && c <= 'z') || ('A' <= c && c <= 'Z') || c == '_' {
        scan_word(src, pos, line, out)
    } else {
        let lexeme = text_of(src, pos, pos + 1);
        assert(lexeme@ =~= seq![c]);
        match get_single_char_tokens(lexeme.as_str()) {
            Some(name) => {
                let name = name.to_owned();
                emit(out, Token::new(lexeme, TokenType::Operator(name), line));
            },
            None => {
                report(out, Diagnostic { line, kind: DiagnosticKind::UnexpectedCharacter(c) });
            },
        }
        (pos + 1, line)
    }
}

/// Scans a buffer of characters: the tokens in source order, closed by the
/// end of input, and the diagnostics in source order.
pub fn scan_chars(src: &Vec<char>) -> (r: ScanResult)
    requires
        src@.len() < usize::MAX,
    ensures
        r@ == scan_model(src@),
{
    let mut out = ScanResult { tokens: Vec::new(), diagnostics: Vec::new() };
    let mut pos: usize = 0;
    let mut line: usize = 1;
    let ghost mut done: Seq<Event> = seq![];
    assert(token_models(out.tokens@) =~= seq![]);
    assert(diagnostic_models(out.diagnostics@) =~= seq![]);
    assert(done + lex(src@, 0, 1).0 =~= lex(src@, 0, 1).0);
    while pos < src.len()
        invariant
            pos <= src@.len() < usize::MAX,
            1 <= line <= pos + 1,
            out@ == record_all(done),
            lex(src@, 0, 1) == (done + lex(src@, pos as int, line as nat).0, lex(
                src@,
                pos as int,
                line as nat,
            ).1),
        decreases src@.len() - pos,
    {
        let ghost s = step(src@, pos as int, line as nat);
        let ghost rest = lex(src@, s.next, s.line);
        let (next, next_line) = scan_step(src, pos, line, &mut out);
        proof {
            assert(lex(src@, pos as int, line as nat) == (prefix(s.event) + rest.0, rest.1));
            assert(done + (prefix(s.event) + rest.0) =~= (done + prefix(s.event)) + rest.0);
            match s.event {
                Some(_) => {
                    assert((done + prefix(s.event)).drop_last() =~= done);
                },
                None => {
                    assert(done + prefix(s.event) =~= done);
                },
            }
            done = done + prefix(s.event);
        }
        pos = next;
        line = next_line;
    }
    assert(done + lex(src@, pos as int, line as nat).0 =~= done);
    let eof = Token::new(String::new(), TokenType::EOF, line);
    emit(&mut out, eof);
    assert(eof@.lexeme =~= seq![]);
    out
}

/// Scans a source text: the tokens in source order, closed by the end of
/// input, and the diagnostics in source order. Never fails: a malformed
/// input yields diagnostics, and scanning goes on after each.
pub fn scan(source: &str) -> (r: ScanResult)
    requires
        source@.len() < usize::MAX,
    ensures
        r@ == scan_model(source@),
{
    let src = chars_of(source);
    scan_chars(&src)
}

} // verus!
