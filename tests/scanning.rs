use lox_lexer::{scan, Diagnostic, DiagnosticKind, ScanResult, Token, TokenType};

fn op(name: &str) -> TokenType {
    TokenType::Operator(name.to_string())
}

fn kinds(r: &ScanResult) -> Vec<TokenType> {
    r.tokens.iter().map(|t| t.kind.clone()).collect()
}

fn eof_count(r: &ScanResult) -> usize {
    r.tokens.iter().filter(|t| t.kind == TokenType::EOF).count()
}

#[test]
fn punctuation_run() {
    let r = scan("(){},;");
    assert_eq!(
        kinds(&r),
        vec![
            op("LEFT_PAREN"),
            op("RIGHT_PAREN"),
            op("LEFT_BRACE"),
            op("RIGHT_BRACE"),
            op("COMMA"),
            op("SEMICOLON"),
            TokenType::EOF
        ]
    );
    assert!(r.diagnostics.is_empty());
    assert!(!r.has_errors());
}

#[test]
fn comment_then_paren() {
    let r = scan("// hi\n(");
    assert_eq!(
        r.tokens,
        vec![
            Token::new("(".to_string(), op("LEFT_PAREN"), 2),
            Token::new(String::new(), TokenType::EOF, 2)
        ]
    );
    assert!(r.diagnostics.is_empty());
}

#[test]
fn unterminated_string_at_end() {
    let r = scan("\"abc");
    assert!(!r.tokens.iter().any(|t| matches!(t.kind, TokenType::StringLiteral(_))));
    assert_eq!(
        r.diagnostics,
        vec![Diagnostic { line: 1, kind: DiagnosticKind::UnterminatedString }]
    );
    assert!(r.has_errors());
}

#[test]
fn lone_quote_is_unterminated() {
    let r = scan("\"");
    assert_eq!(
        r.diagnostics,
        vec![Diagnostic { line: 1, kind: DiagnosticKind::UnterminatedString }]
    );
    assert_eq!(kinds(&r), vec![TokenType::EOF]);
}

#[test]
fn unterminated_string_at_newline() {
    let r = scan("\"ab\nx");
    assert_eq!(
        r.diagnostics,
        vec![Diagnostic { line: 1, kind: DiagnosticKind::UnterminatedString }]
    );
    assert_eq!(
        r.tokens,
        vec![
            Token::new("x".to_string(), TokenType::Identifier, 2),
            Token::new(String::new(), TokenType::EOF, 2)
        ]
    );
}

#[test]
fn string_literal() {
    let r = scan("\"hi there\"");
    assert_eq!(
        r.tokens[0],
        Token::new(
            "\"hi there\"".to_string(),
            TokenType::StringLiteral("hi there".to_string()),
            1
        )
    );
    assert_eq!(r.tokens.len(), 2);
}

#[test]
fn comparison_operators() {
    let r = scan("!= == <= >= ! = < >");
    let names = [
        "BANG_EQUAL",
        "EQUAL_EQUAL",
        "LESS_EQUAL",
        "GREATER_EQUAL",
        "BANG",
        "EQUAL",
        "LESS",
        "GREATER",
    ];
    let mut expected: Vec<TokenType> = names.iter().map(|n| op(n)).collect();
    expected.push(TokenType::EOF);
    assert_eq!(kinds(&r), expected);
    let lexemes: Vec<&str> = r.tokens.iter().map(|t| t.lexeme.as_str()).collect();
    assert_eq!(lexemes, vec!["!=", "==", "<=", ">=", "!", "=", "<", ">", ""]);
    assert!(r.diagnostics.is_empty());
}

#[test]
fn keyword_prefix_stays_identifier() {
    let r = scan("classic");
    assert_eq!(
        r.tokens,
        vec![
            Token::new("classic".to_string(), TokenType::Identifier, 1),
            Token::new(String::new(), TokenType::EOF, 1)
        ]
    );
}

#[test]
fn reserved_words() {
    let r = scan("class while_ var");
    assert_eq!(
        kinds(&r),
        vec![
            TokenType::Keyword("CLASS".to_string()),
            TokenType::Identifier,
            TokenType::Keyword("VAR".to_string()),
            TokenType::EOF
        ]
    );
}

#[test]
fn number_with_zero_fraction() {
    let r = scan("123.0");
    assert_eq!(
        r.tokens,
        vec![
            Token::new("123.0".to_string(), TokenType::NumberLiteral("123.0".to_string()), 1),
            Token::new(String::new(), TokenType::EOF, 1)
        ]
    );
    assert!(r.diagnostics.is_empty());
}

#[test]
fn number_with_second_point() {
    let r = scan("123.45.6");
    assert_eq!(
        r.diagnostics,
        vec![Diagnostic {
            line: 1,
            kind: DiagnosticKind::InvalidNumberLiteral("123.45.6".to_string())
        }]
    );
    assert_eq!(kinds(&r), vec![TokenType::EOF]);
}

#[test]
fn invalid_number_resumes_after_fragment() {
    let r = scan("1.2.3+x");
    assert_eq!(
        r.diagnostics,
        vec![Diagnostic { line: 1, kind: DiagnosticKind::InvalidNumberLiteral("1.2.3".to_string()) }]
    );
    assert_eq!(kinds(&r), vec![op("PLUS"), TokenType::Identifier, TokenType::EOF]);
}

#[test]
fn number_printed_values() {
    let r = scan("007 1.50 0.25 12");
    let values: Vec<TokenType> = kinds(&r);
    assert_eq!(
        values,
        vec![
            TokenType::NumberLiteral("7.0".to_string()),
            TokenType::NumberLiteral("1.5".to_string()),
            TokenType::NumberLiteral("0.25".to_string()),
            TokenType::NumberLiteral("12.0".to_string()),
            TokenType::EOF
        ]
    );
}

#[test]
fn trailing_point_is_a_dot() {
    let r = scan("12.");
    assert_eq!(
        r.tokens,
        vec![
            Token::new("12".to_string(), TokenType::NumberLiteral("12.0".to_string()), 1),
            Token::new(".".to_string(), op("DOT"), 1),
            Token::new(String::new(), TokenType::EOF, 1)
        ]
    );
}

#[test]
fn unexpected_characters() {
    let r = scan("a @\n#");
    assert_eq!(
        r.diagnostics,
        vec![
            Diagnostic { line: 1, kind: DiagnosticKind::UnexpectedCharacter('@') },
            Diagnostic { line: 2, kind: DiagnosticKind::UnexpectedCharacter('#') }
        ]
    );
    assert_eq!(kinds(&r), vec![TokenType::Identifier, TokenType::EOF]);
    assert_eq!(r.tokens[1].line, 2);
}

#[test]
fn unicode_letters_continue_identifiers() {
    let r = scan("caf\u{e9} a\u{20ac}");
    assert_eq!(r.tokens[0], Token::new("caf\u{e9}".to_string(), TokenType::Identifier, 1));
    assert_eq!(r.tokens[1], Token::new("a".to_string(), TokenType::Identifier, 1));
    assert_eq!(
        r.diagnostics,
        vec![Diagnostic { line: 1, kind: DiagnosticKind::UnexpectedCharacter('\u{20ac}') }]
    );
}

#[test]
fn slash_and_comment_at_end() {
    let r = scan("a / b // rest");
    assert_eq!(kinds(&r), vec![TokenType::Identifier, op("SLASH"), TokenType::Identifier, TokenType::EOF]);
    assert!(r.diagnostics.is_empty());
}

#[test]
fn whitespace_and_lines() {
    let r = scan(" \t\r\n\n  x");
    assert_eq!(r.tokens[0], Token::new("x".to_string(), TokenType::Identifier, 3));
    assert_eq!(r.tokens[1].line, 3);
}

#[test]
fn empty_input() {
    let r = scan("");
    assert_eq!(r.tokens, vec![Token::new(String::new(), TokenType::EOF, 1)]);
    assert!(r.diagnostics.is_empty());
}

#[test]
fn exactly_one_end_of_input() {
    for src in ["", "x", "\"", "1.2.3", "// c", "a\nb\n", "@#$", "\"s\" 1 + 2"] {
        let r = scan(src);
        assert_eq!(eof_count(&r), 1);
        assert_eq!(r.tokens.last().unwrap().kind, TokenType::EOF);
    }
}

#[test]
fn lines_never_decrease() {
    let r = scan("a @\n\"x\n1.2.3 b\n// c\n# d");
    let mut lines: Vec<usize> = r.tokens.iter().map(|t| t.line).collect();
    let diag_lines: Vec<usize> = r.diagnostics.iter().map(|d| d.line).collect();
    assert!(lines.windows(2).all(|w| w[0] <= w[1]));
    assert!(diag_lines.windows(2).all(|w| w[0] <= w[1]));
    assert_eq!(diag_lines, vec![1, 2, 3, 5]);
    lines.pop();
    assert_eq!(lines, vec![1, 3, 5]);
    assert_eq!(r.tokens.last().unwrap().line, 5);
}

#[test]
fn scanning_twice_gives_the_same_result() {
    let src = "var x = 1.50; // c\nprint \"s\" @ 2.3.4";
    assert_eq!(scan(src), scan(src));
}

#[test]
fn newlines_in_strings_and_comments_are_counted() {
    let r = scan("a\n\"b\nc\" // x\n");
    assert_eq!(r.tokens.last().unwrap().line, 4);
    assert_eq!(
        r.diagnostics,
        vec![
            Diagnostic { line: 2, kind: DiagnosticKind::UnterminatedString },
            Diagnostic { line: 3, kind: DiagnosticKind::UnterminatedString }
        ]
    );
    assert_eq!(r.tokens[1], Token::new("c".to_string(), TokenType::Identifier, 3));
}

#[test]
fn carriage_return_is_whitespace() {
    let r = scan("a\r\nb");
    assert_eq!(r.tokens[1], Token::new("b".to_string(), TokenType::Identifier, 2));
    assert!(r.diagnostics.is_empty());
}
