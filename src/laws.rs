use vstd::prelude::*;

use crate::model::{
    end_of_input, in_run, lex, prefix, record_all, run_end, scan_events, scan_model, step, Event,
    Run,
};
use crate::token::{DiagnosticModel, TokenModel};

verus! {

/// The line at which an event was recorded.
pub open spec fn event_line(e: Event) -> nat {
    match e {
        Event::Emit(t) => t.line,
        Event::Report(d) => d.line,
    }
}

/// Whether the lines of `ev` never decrease from one event to a later one.
pub open spec fn lines_ordered(ev: Seq<Event>) -> bool {
    forall|i: int, j: int| 0 <= i <= j < ev.len() ==> event_line(ev[i]) <= event_line(ev[j])
}

pub open spec fn token_lines_ordered(ts: Seq<TokenModel>) -> bool {
    forall|i: int, j: int| 0 <= i <= j < ts.len() ==> ts[i].line <= ts[j].line
}

pub open spec fn diagnostic_lines_ordered(ds: Seq<DiagnosticModel>) -> bool {
    forall|i: int, j: int| 0 <= i <= j < ds.len() ==> ds[i].line <= ds[j].line
}

/// The number of end-of-input tokens in `ts`.
pub open spec fn eof_count(ts: Seq<TokenModel>) -> nat
    decreases ts.len(),
{
    if ts.len() == 0 {
        0
    } else {
        eof_count(ts.drop_last()) + if ts.last().kind is EOF {
            1nat
        } else {
            0nat
        }
    }
}

pub open spec fn emits_no_eof(ev: Seq<Event>) -> bool {
    forall|i: int| 0 <= i < ev.len() && #[trigger] ev[i] is Emit ==> !(ev[i]->Emit_0.kind is EOF)
}

proof fn lemma_step_line(src: Seq<char>, pos: int, line: nat)
    requires
        0 <= pos < src.len(),
    ensures
        line <= step(src, pos, line).line,
        step(src, pos, line).event matches Some(e) ==> event_line(e) == line,
        step(src, pos, line).event matches Some(e) ==> (e is Emit ==> !(e->Emit_0.kind is EOF)),
{
}

proof fn lemma_lex_lines(src: Seq<char>, pos: int, line: nat)
    ensures
        line <= lex(src, pos, line).1,
        forall|i: int|
            0 <= i < lex(src, pos, line).0.len() ==> line <= #[trigger] event_line(
                lex(src, pos, line).0[i],
            ) <= lex(src, pos, line).1,
        lines_ordered(lex(src, pos, line).0),
        emits_no_eof(lex(src, pos, line).0),
    decreases src.len() - pos,
{
    if 0 <= pos < src.len() {
        let s = step(src, pos, line);
        if pos < s.next <= src.len() {
            lemma_step_line(src, pos, line);
            lemma_lex_lines(src, s.next, s.line);
            let rest = lex(src, s.next, s.line);
            let ev = lex(src, pos, line).0;
            assert(ev == prefix(s.event) + rest.0);
            let k = prefix(s.event).len();
            assert forall|i: int| 0 <= i < ev.len() implies line <= #[trigger] event_line(ev[i])
                <= rest.1 by {
                if i >= k {
                    assert(ev[i] == rest.0[i - k]);
                }
            }
            assert forall|i: int, j: int| 0 <= i <= j < ev.len() implies event_line(ev[i])
                <= event_line(ev[j]) by {
                if i >= k {
                    assert(ev[i] == rest.0[i - k]);
                    assert(ev[j] == rest.0[j - k]);
                } else if j >= k {
                    assert(ev[j] == rest.0[j - k]);
                    assert(line <= event_line(rest.0[j - k]));
                }
            }
            assert forall|i: int| 0 <= i < ev.len() && #[trigger] ev[i] is Emit implies !(
            ev[i]->Emit_0.kind is EOF) by {
                if i >= k {
                    assert(ev[i] == rest.0[i - k]);
                }
            }
        }
    }
}

proof fn lemma_record_all_no_eof(ev: Seq<Event>)
    requires
        emits_no_eof(ev),
    ensures
        eof_count(record_all(ev).tokens) == 0,
    decreases ev.len(),
{
    if ev.len() > 0 {
        let init = ev.drop_last();
        assert forall|i: int| 0 <= i < init.len() && #[trigger] init[i] is Emit implies !(
        init[i]->Emit_0.kind is EOF) by {
            assert(init[i] == ev[i]);
        }
        lemma_record_all_no_eof(init);
        let m = record_all(init);
        if let Event::Emit(t) = ev.last() {
            assert(ev[ev.len() - 1] is Emit);
            assert(m.tokens.push(t).drop_last() =~= m.tokens);
        }
    }
}

proof fn lemma_record_all_lines(ev: Seq<Event>, bound: nat)
    requires
        lines_ordered(ev),
        forall|i: int| 0 <= i < ev.len() ==> #[trigger] event_line(ev[i]) <= bound,
    ensures
        token_lines_ordered(record_all(ev).tokens),
        diagnostic_lines_ordered(record_all(ev).diagnostics),
        forall|i: int|
            0 <= i < record_all(ev).tokens.len() ==> #[trigger] record_all(ev).tokens[i].line
                <= bound,
        forall|i: int|
            0 <= i < record_all(ev).diagnostics.len() ==> #[trigger] record_all(
                ev,
            ).diagnostics[i].line <= bound,
    decreases ev.len(),
{
    if ev.len() > 0 {
        let init = ev.drop_last();
        let last = ev.last();
        assert forall|i: int| 0 <= i < init.len() implies #[trigger] event_line(init[i])
            <= event_line(last) by {
            assert(init[i] == ev[i]);
        }
        assert forall|i: int, j: int| 0 <= i <= j < init.len() implies event_line(init[i])
            <= event_line(init[j]) by {
            assert(init[i] == ev[i]);
            assert(init[j] == ev[j]);
        }
        lemma_record_all_lines(init, event_line(last));
        assert(event_line(ev[ev.len() - 1]) <= bound);
    }
}

/// Every scan yields exactly one end-of-input token, and it is the last one.
pub proof fn lemma_one_end_of_input(src: Seq<char>)
    ensures
        eof_count(scan_model(src).tokens) == 1,
        scan_model(src).tokens.last().kind is EOF,
{
    lemma_lex_lines(src, 0, 1);
    let ev = lex(src, 0, 1).0;
    lemma_record_all_no_eof(ev);
    let ts = record_all(ev).tokens;
    assert(scan_model(src).tokens.drop_last() =~= ts);
}

/// Along the tokens and diagnostics of a scan, taken in the order in which
/// they were found, line numbers never decrease; and none is beyond the line
/// of the end-of-input token. So the lines of the tokens, and those of the
/// diagnostics, are each in order.
pub proof fn lemma_lines_in_emission_order(src: Seq<char>)
    ensures
        lines_ordered(scan_events(src)),
        forall|i: int|
            0 <= i < scan_events(src).len() ==> #[trigger] event_line(scan_events(src)[i])
                <= scan_model(src).tokens.last().line,
        token_lines_ordered(scan_model(src).tokens),
        diagnostic_lines_ordered(scan_model(src).diagnostics),
{
    lemma_lex_lines(src, 0, 1);
    let (ev, last) = lex(src, 0, 1);
    lemma_record_all_lines(ev, last);
    let ts = scan_model(src).tokens;
    assert(ts == record_all(ev).tokens.push(end_of_input(last)));
    assert forall|i: int, j: int| 0 <= i <= j < ts.len() implies ts[i].line <= ts[j].line by {
        if j < ts.len() - 1 {
            assert(ts[i] == record_all(ev).tokens[i]);
            assert(ts[j] == record_all(ev).tokens[j]);
        } else if i < ts.len() - 1 {
            assert(ts[i] == record_all(ev).tokens[i]);
        }
    }
}

/// Scanning depends on the text alone: two scans of the same text yield the
/// same tokens and the same diagnostics, in the same order.
pub proof fn lemma_scan_idempotent(first: Seq<char>, second: Seq<char>)
    requires
        first == second,
    ensures
        scan_model(first) == scan_model(second),
        scan_events(first) == scan_events(second),
{
}

/// The number of newline characters in `s`.
pub open spec fn newline_count(s: Seq<char>) -> nat
    decreases s.len(),
{
    if s.len() == 0 {
        0
    } else {
        (if s[0] == '\n' {
            1nat
        } else {
            0nat
        }) + newline_count(s.drop_first())
    }
}

proof fn lemma_newline_count_add(a: Seq<char>, b: Seq<char>)
    ensures
        newline_count(a + b) == newline_count(a) + newline_count(b),
    decreases a.len(),
{
    if a.len() > 0 {
        assert((a + b).drop_first() =~= a.drop_first() + b);
        lemma_newline_count_add(a.drop_first(), b);
    } else {
        assert(a + b =~= b);
    }
}

proof fn lemma_newline_count_split(s: Seq<char>, i: int, j: int, k: int)
    requires
        0 <= i <= j <= k <= s.len(),
    ensures
        newline_count(s.subrange(i, k)) == newline_count(s.subrange(i, j)) + newline_count(
            s.subrange(j, k),
        ),
{
    assert(s.subrange(i, k) =~= s.subrange(i, j) + s.subrange(j, k));
    lemma_newline_count_add(s.subrange(i, j), s.subrange(j, k));
}

proof fn lemma_newline_count_one(s: Seq<char>, i: int)
    requires
        0 <= i < s.len(),
    ensures
        newline_count(s.subrange(i, i + 1)) == if s[i] == '\n' {
            1nat
        } else {
            0nat
        },
{
    let t = s.subrange(i, i + 1);
    assert(t[0] == s[i]);
    assert(newline_count(t.drop_first()) == 0);
}

/// A run ends at the end of the text or before a character outside it, and
/// no run that the scanner consumes holds a newline.
proof fn lemma_run_has_no_newline(src: Seq<char>, i: int, run: Run)
    requires
        0 <= i <= src.len(),
    ensures
        i <= run_end(src, i, run) <= src.len(),
        run_end(src, i, run) < src.len() ==> !in_run(src[run_end(src, i, run)], run),
        newline_count(src.subrange(i, run_end(src, i, run))) == 0,
    decreases src.len() - i,
{
    if i < src.len() && in_run(src[i], run) {
        let e = run_end(src, i, run);
        lemma_run_has_no_newline(src, i + 1, run);
        assert(src.subrange(i, e).drop_first() =~= src.subrange(i + 1, e));
    } else {
        assert(src.subrange(i, i).len() == 0);
    }
}

/// A step raises the line counter by the number of newlines it consumes.
proof fn lemma_step_newlines(src: Seq<char>, pos: int, line: nat)
    requires
        0 <= pos < src.len(),
        pos < step(src, pos, line).next <= src.len(),
    ensures
        step(src, pos, line).line == line + newline_count(
            src.subrange(pos, step(src, pos, line).next),
        ),
{
    let c = src[pos];
    let paired = pos + 1 < src.len() && src[pos + 1] == '=';
    lemma_newline_count_one(src, pos);
    if c == '"' {
        lemma_run_has_no_newline(src, pos + 1, Run::StringBody);
        let e = run_end(src, pos + 1, Run::StringBody);
        lemma_newline_count_split(src, pos, pos + 1, e);
        if e < src.len() {
            lemma_newline_count_split(src, pos, e, e + 1);
            lemma_newline_count_one(src, e);
        }
    } else if c == '/' && pos + 1 < src.len() && src[pos + 1] == '/' {
        lemma_run_has_no_newline(src, pos + 2, Run::CommentBody);
        let e = run_end(src, pos + 2, Run::CommentBody);
        lemma_newline_count_one(src, pos + 1);
        lemma_newline_count_split(src, pos, pos + 1, pos + 2);
        lemma_newline_count_split(src, pos, pos + 2, e);
        if e < src.len() {
            lemma_newline_count_split(src, pos, e, e + 1);
            lemma_newline_count_one(src, e);
        }
    } else if (c == '=' || c == '!' || c == '<' || c == '>') && paired {
        lemma_newline_count_one(src, pos + 1);
        lemma_newline_count_split(src, pos, pos + 1, pos + 2);
    } else if '0' <= c && c <= '9' {
        lemma_run_has_no_newline(src, pos, Run::Digits);
        lemma_run_has_no_newline(src, pos, Run::NumberFragment);
        let a = run_end(src, pos, Run::Digits);
        if a + 1 < src.len() && src[a] == '.' && '0' <= src[a + 1] && src[a + 1] <= '9' {
            lemma_run_has_no_newline(src, a + 1, Run::Digits);
            let b = run_end(src, a + 1, Run::Digits);
            lemma_newline_count_split(src, pos, a, a + 1);
            lemma_newline_count_one(src, a);
            lemma_newline_count_split(src, pos, a + 1, b);
        }
    } else if ('a' <= c && c <= 'z') || ('A' <= c && c <= 'Z') || c == '_' {
        lemma_run_has_no_newline(src, pos + 1, Run::IdentifierTail);
        lemma_newline_count_split(src, pos, pos + 1, run_end(src, pos + 1, Run::IdentifierTail));
    }
}

proof fn lemma_lex_newlines(src: Seq<char>, pos: int, line: nat)
    requires
        0 <= pos <= src.len(),
    ensures
        lex(src, pos, line).1 == line + newline_count(src.subrange(pos, src.len() as int)),
    decreases src.len() - pos,
{
    if pos < src.len() {
        let s = step(src, pos, line);
        if pos < s.next <= src.len() {
            lemma_step_newlines(src, pos, line);
            lemma_lex_newlines(src, s.next, s.line);
            lemma_newline_count_split(src, pos, s.next, src.len() as int);
        } else {
            lemma_step_advances(src, pos, line);
        }
    } else {
        assert(src.subrange(pos, src.len() as int).len() == 0);
    }
}

/// Every step consumes at least one character, and none past the end.
pub proof fn lemma_step_advances(src: Seq<char>, pos: int, line: nat)
    requires
        0 <= pos < src.len(),
    ensures
        pos < step(src, pos, line).next <= src.len(),
{
    let c = src[pos];
    lemma_run_has_no_newline(src, pos + 1, Run::StringBody);
    lemma_run_has_no_newline(src, pos, Run::Digits);
    lemma_run_has_no_newline(src, pos, Run::NumberFragment);
    lemma_run_has_no_newline(src, pos + 1, Run::IdentifierTail);
    if c == '/' && pos + 1 < src.len() && src[pos + 1] == '/' {
        lemma_run_has_no_newline(src, pos + 2, Run::CommentBody);
    }
    if '0' <= c && c <= '9' {
        let a = run_end(src, pos, Run::Digits);
        assert(run_end(src, pos, Run::Digits) == run_end(src, pos + 1, Run::Digits));
        lemma_run_has_no_newline(src, pos + 1, Run::Digits);
        assert(run_end(src, pos, Run::NumberFragment) == run_end(src, pos + 1, Run::NumberFragment));
        lemma_run_has_no_newline(src, pos + 1, Run::NumberFragment);
        if a + 1 < src.len() {
            lemma_run_has_no_newline(src, a + 1, Run::Digits);
        }
    }
}

/// The line counter rises exactly once per newline character, inside string
/// literals and comments too: the end of input stands at line 1 plus the
/// number of newlines in the text.
pub proof fn lemma_end_line_counts_newlines(src: Seq<char>)
    ensures
        scan_model(src).tokens.last().line == 1 + newline_count(src),
{
    lemma_lex_newlines(src, 0, 1);
    assert(src.subrange(0, src.len() as int) =~= src);
}

} // verus!
