use vstd::prelude::*;

use crate::text::{append_str, push_char, same_text};
use crate::token::{token_models, Kind, Token, TokenModel, TokenType};

verus! {

/// Why a token stream could not be reduced.
#[derive(Debug, Clone, Copy, PartialEq, Eq)]
pub enum ReduceError {
    /// An arithmetic operator was reduced while fewer than two operands were
    /// pending.
    MissingOperand,
}

/// The state of the reducer: pending operands (printed number values),
/// pending operators (lexemes), and the lines printed so far.
pub struct Reduction {
    pub operands: Seq<Seq<char>>,
    pub operators: Seq<Seq<char>>,
    pub lines: Seq<Seq<char>>,
}

pub open spec fn texts(v: Seq<String>) -> Seq<Seq<char>> {
    v.map_values(|s: String| s@)
}

pub open spec fn is_arithmetic(op: Seq<char>) -> bool {
    op == "+"@ || op == "-"@ || op == "*"@ || op == "/"@
}

/// The printed group `(<op> <left> <right>)`.
pub open spec fn group_line(op: Seq<char>, left: Seq<char>, right: Seq<char>) -> Seq<char> {
    seq!['('] + op + seq![' '] + left + seq![' '] + right + seq![')']
}

/// Pops the top operator, if there is one. An arithmetic operator takes the
/// two top operands (the top one is the right operand) and prints them as a
/// group; the result is not pushed back. `None` when an arithmetic operator
/// finds fewer than two operands.
pub open spec fn reduce_top(st: Reduction) -> Option<Reduction> {
    if st.operators.len() == 0 {
        Some(st)
    } else {
        let op = st.operators.last();
        let operators = st.operators.drop_last();
        if !is_arithmetic(op) {
            Some(Reduction { operators, ..st })
        } else if st.operands.len() < 2 {
            None
        } else {
            let n = st.operands.len();
            Some(
                Reduction {
                    operands: st.operands.subrange(0, n - 2),
                    operators,
                    lines: st.lines.push(group_line(op, st.operands[n - 2], st.operands[n - 1])),
                },
            )
        }
    }
}

/// What one token does to the reducer: a number is pushed as an operand; an
/// operator reduces the top operator and is then pushed; an identifier or a
/// keyword is printed as it stands; any other token is passed over.
pub open spec fn reduce_token(st: Reduction, t: TokenModel) -> Option<Reduction> {
    match t.kind {
        Kind::NumberLiteral(v) => Some(Reduction { operands: st.operands.push(v), ..st }),
        Kind::Operator(_) => match reduce_top(st) {
            Some(s) => Some(Reduction { operators: s.operators.push(t.lexeme), ..s }),
            None => None,
        },
        Kind::Identifier => Some(Reduction { lines: st.lines.push(t.lexeme), ..st }),
        Kind::Keyword(_) => Some(Reduction { lines: st.lines.push(t.lexeme), ..st }),
        _ => Some(st),
    }
}

/// The reducer's state after the tokens `ts`, from empty stacks.
pub open spec fn reduce_tokens(ts: Seq<TokenModel>) -> Option<Reduction>
    decreases ts.len(),
{
    if ts.len() == 0 {
        Some(Reduction { operands: seq![], operators: seq![], lines: seq![] })
    } else {
        match reduce_tokens(ts.drop_last()) {
            Some(st) => reduce_token(st, ts.last()),
            None => None,
        }
    }
}

/// The lines printed for `ts`: those of every token, then those of one final
/// reduction of the top operator.
pub open spec fn reduce_model(ts: Seq<TokenModel>) -> Option<Seq<Seq<char>>> {
    match reduce_tokens(ts) {
        Some(st) => match reduce_top(st) {
            Some(last) => Some(last.lines),
            None => None,
        },
        None => None,
    }
}

/// The exec stacks of the reducer.
struct Stacks {
    operands: Vec<String>,
    operators: Vec<String>,
    lines: Vec<String>,
}

impl View for Stacks {
    type V = Reduction;

    closed spec fn view(&self) -> Reduction {
        Reduction {
            operands: texts(self.operands@),
            operators: texts(self.operators@),
            lines: texts(self.lines@),
        }
    }
}

fn is_arithmetic_exec(op: &String) -> (r: bool)
    ensures
        r == is_arithmetic(op@),
{
    same_text(op.as_str(), "+") || same_text(op.as_str(), "-") || same_text(op.as_str(), "*")
        || same_text(op.as_str(), "/")
}

fn group_text(op: &String, left: &String, right: &String) -> (r: String)
    ensures
        r@ == group_line(op@, left@, right@),
{
    let mut out = String::new();
    push_char(&mut out, '(');
    append_str(&mut out, op.as_str());
    push_char(&mut out, ' ');
    append_str(&mut out, left.as_str());
    push_char(&mut out, ' ');
    append_str(&mut out, right.as_str());
    push_char(&mut out, ')');
    assert(out@ =~= group_line(op@, left@, right@));
    out
}

fn push_string(v: &mut Vec<String>, s: String)
    ensures
        texts(final(v)@) == texts(old(v)@).push(s@),
{
    v.push(s);
    assert(texts(v@) =~= texts(old(v)@).push(s@));
}

fn reduce_top_exec(st: &mut Stacks) -> (ok: bool)
    ensures
        match reduce_top(old(st)@) {
            Some(s) => ok && final(st)@ == s,
            None => !ok,
        },
{
    let ghost before = st@;
    match st.operators.pop() {
        None => {
            assert(before.operators.len() == 0);
            true
        },
        Some(op) => {
            assert(texts(st.operators@) =~= before.operators.drop_last());
            if !is_arithmetic_exec(&op) {
                return true;
            }
            let n = st.operands.len();
            if n < 2 {
                return false;
            }
            let right = st.operands.pop().unwrap();
            let left = st.operands.pop().unwrap();
            assert(texts(st.operands@) =~= before.operands.subrange(0, n - 2));
            let line = group_text(&op, &left, &right);
            push_string(&mut st.lines, line);
            true
        },
    }
}

/// Prints a token stream as parenthesised groups by immediate, left-to-right
/// reduction with an operand stack and an operator stack. Each operator
/// reduces only the operator before it, and a group's result is not pushed
/// back, so this is no evaluation of precedence: `1 + 2 * 3` prints
/// `(+ 1.0 2.0)` and then fails for want of a left operand of `*`.
pub fn reduce(tokens: &Vec<Token>) -> (r: Result<Vec<String>, ReduceError>)
    ensures
        match reduce_model(token_models(tokens@)) {
            Some(lines) => r is Ok && texts(r->Ok_0@) == lines,
            None => r == Err::<Vec<String>, ReduceError>(ReduceError::MissingOperand),
        },
{
    let mut st = Stacks { operands: Vec::new(), operators: Vec::new(), lines: Vec::new() };
    let ghost ts = token_models(tokens@);
    assert(st@ == reduce_tokens(ts.subrange(0, 0)).unwrap()) by {
        assert(texts(st.operands@) =~= seq![]);
        assert(texts(st.operators@) =~= seq![]);
        assert(texts(st.lines@) =~= seq![]);
    }
    let mut i: usize = 0;
    while i < tokens.len()
        invariant
            ts == token_models(tokens@),
            i <= tokens@.len(),
            reduce_tokens(ts.subrange(0, i as int)) == Some(st@),
        decreases tokens@.len() - i,
    {
        let t = &tokens[i];
        assert(ts.subrange(0, i + 1).drop_last() =~= ts.subrange(0, i as int));
        assert(ts.subrange(0, i + 1).last() == t@);
        match &t.kind {
            TokenType::NumberLiteral(v) => {
                push_string(&mut st.operands, v.clone());
            },
            TokenType::Operator(_) => {
                if !reduce_top_exec(&mut st) {
                    proof {
                        lemma_failure_persists(ts, i as int + 1);
                    }
                    return Err(ReduceError::MissingOperand);
                }
                push_string(&mut st.operators, t.lexeme.clone());
            },
            TokenType::Identifier | TokenType::Keyword(_) => {
                push_string(&mut st.lines, t.lexeme.clone());
            },
            _ => {},
        }
        i = i + 1;
    }
    assert(ts.subrange(0, i as int) =~= ts);
    if !reduce_top_exec(&mut st) {
        return Err(ReduceError::MissingOperand);
    }
    Ok(st.lines)
}

/// Once the reducer has failed on a prefix of the tokens, it fails on the
/// whole stream.
proof fn lemma_failure_persists(ts: Seq<TokenModel>, k: int)
    requires
        0 <= k <= ts.len(),
        reduce_tokens(ts.subrange(0, k)) is None,
    ensures
        reduce_tokens(ts) is None,
    decreases ts.len() - k,
{
    if k < ts.len() {
        assert(ts.subrange(0, k + 1).drop_last() =~= ts.subrange(0, k));
        lemma_failure_persists(ts, k + 1);
    } else {
        assert(ts.subrange(0, k) =~= ts);
    }
}

} // verus!
