use lox_lexer::{
    describe_diagnostic, describe_token, get_reserved_keyword, get_single_char_tokens, reduce,
    scan, scan_chars, Diagnostic, DiagnosticKind, ReduceError, Token, TokenType,
};

fn lines(src: &str) -> Result<Vec<String>, ReduceError> {
    reduce(&scan(src).tokens)
}

#[test]
fn keyword_table() {
    assert_eq!(get_reserved_keyword("while"), Some("WHILE"));
    assert_eq!(get_reserved_keyword("and"), Some("AND"));
    assert_eq!(get_reserved_keyword("nil"), Some("NIL"));
    assert_eq!(get_reserved_keyword("While"), None);
    assert_eq!(get_reserved_keyword("classic"), None);
    assert_eq!(get_reserved_keyword(""), None);
}

#[test]
fn single_char_table() {
    assert_eq!(get_single_char_tokens("("), Some("LEFT_PAREN"));
    assert_eq!(get_single_char_tokens("/"), Some("SLASH"));
    assert_eq!(get_single_char_tokens(">"), Some("GREATER"));
    assert_eq!(get_single_char_tokens("@"), None);
    assert_eq!(get_single_char_tokens("(("), None);
}

#[test]
fn scan_of_a_char_buffer() {
    let r = scan_chars(&vec!['x', ' ', '+']);
    assert_eq!(r, scan("x +"));
}

#[test]
fn reduce_one_group() {
    assert_eq!(lines("1 + 2"), Ok(vec!["(+ 1.0 2.0)".to_string()]));
}

#[test]
fn reduce_prints_words_and_groups() {
    assert_eq!(
        lines("print 1.5 * 2;"),
        Ok(vec!["print".to_string(), "(* 1.5 2.0)".to_string()])
    );
}

#[test]
fn reduce_is_linear_not_by_precedence() {
    assert_eq!(lines("1 + 2 * 3"), Err(ReduceError::MissingOperand));
    assert_eq!(lines("+ 1"), Err(ReduceError::MissingOperand));
}

#[test]
fn reduce_leaves_other_operators() {
    assert_eq!(lines("a = 1"), Ok(vec!["a".to_string()]));
    assert_eq!(lines(""), Ok(vec![]));
    assert_eq!(lines("\"s\" x"), Ok(vec!["x".to_string()]));
}

#[test]
fn token_lines() {
    let r = scan("var x = \"hi\" 1.50");
    let out: Vec<String> = r.tokens.iter().map(describe_token).collect();
    assert_eq!(
        out,
        vec![
            "VAR var null",
            "IDENTIFIER x null",
            "EQUAL = null",
            "STRING \"hi\" hi",
            "NUMBER 1.50 1.5",
            "EOF  null"
        ]
    );
    let p = Token::new(",".to_string(), TokenType::Punctuation(','), 1);
    assert_eq!(describe_token(&p), "PUNCTUATION , null");
}

#[test]
fn diagnostic_lines() {
    let d = Diagnostic { line: 1207, kind: DiagnosticKind::UnterminatedString };
    assert_eq!(describe_diagnostic(&d), "[line 1207] Error: Unterminated string.");
    let d = Diagnostic { line: 3, kind: DiagnosticKind::UnexpectedCharacter('$') };
    assert_eq!(describe_diagnostic(&d), "[line 3] Error: Unexpected character: $");
    let d = Diagnostic {
        line: 10,
        kind: DiagnosticKind::InvalidNumberLiteral("1.2.3".to_string()),
    };
    assert_eq!(describe_diagnostic(&d), "[line 10] Error: Invalid number literal: 1.2.3");
    let d = Diagnostic { line: 0, kind: DiagnosticKind::UnterminatedString };
    assert_eq!(describe_diagnostic(&d), "[line 0] Error: Unterminated string.");
}
