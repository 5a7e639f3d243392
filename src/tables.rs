use vstd::prelude::*;

use crate::text::same_text;

verus! {

/// The text of a name looked up in a table, if any.
pub open spec fn name_view(o: Option<&str>) -> Option<Seq<char>> {
    match o {
        Some(n) => Some(n@),
        None => None,
    }
}

/// The reserved words, each with its canonical keyword name; matched exactly
/// and case-sensitively.
pub open spec fn keyword_name(word: Seq<char>) -> Option<Seq<char>> {
    if word == "and"@ {
        Some("AND"@)
    } else if word == "class"@ {
        Some("CLASS"@)
    } else if word == "else"@ {
        Some("ELSE"@)
    } else if word == "false"@ {
        Some("FALSE"@)
    } else if word == "for"@ {
        Some("FOR"@)
    } else if word == "fun"@ {
        Some("FUN"@)
    } else if word == "if"@ {
        Some("IF"@)
    } else if word == "nil"@ {
        Some("NIL"@)
    } else if word == "or"@ {
        Some("OR"@)
    } else if word == "print"@ {
        Some("PRINT"@)
    } else if word == "return"@ {
        Some("RETURN"@)
    } else if word == "super"@ {
        Some("SUPER"@)
    } else if word == "this"@ {
        Some("THIS"@)
    } else if word == "true"@ {
        Some("TRUE"@)
    } else if word == "var"@ {
        Some("VAR"@)
    } else if word == "while"@ {
        Some("WHILE"@)
    } else {
        None
    }
}

/// The characters that form a token on their own, each with its canonical name.
pub open spec fn single_char_name(text: Seq<char>) -> Option<Seq<char>> {
    if text == "("@ {
        Some("LEFT_PAREN"@)
    } else if text == ")"@ {
        Some("RIGHT_PAREN"@)
    } else if text == "{"@ {
        Some("LEFT_BRACE"@)
    } else if text == "}"@ {
        Some("RIGHT_BRACE"@)
    } else if text == ","@ {
        Some("COMMA"@)
    } else if text == ";"@ {
        Some("SEMICOLON"@)
    } else if text == "+"@ {
        Some("PLUS"@)
    } else if text == "-"@ {
        Some("MINUS"@)
    } else if text == "*"@ {
        Some("STAR"@)
    } else if text == "."@ {
        Some("DOT"@)
    } else if text == "="@ {
        Some("EQUAL"@)
    } else if text == "!"@ {
        Some("BANG"@)
    } else if text == ">"@ {
        Some("GREATER"@)
    } else if text == "<"@ {
        Some("LESS"@)
    } else if text == "/"@ {
        Some("SLASH"@)
    } else {
        None
    }
}

/// The canonical name of a reserved word, or `None` for any other text.
pub fn get_reserved_keyword(keyword: &str) -> (r: Option<&str>)
    ensures
        name_view(r) == keyword_name(keyword@),
{
    if same_text(keyword, "and") {
        Some("AND")
    } else if same_text(keyword, "class") {
        Some("CLASS")
    } else if same_text(keyword, "else") {
        Some("ELSE")
    } else if same_text(keyword, "false") {
        Some("FALSE")
    } else if same_text(keyword, "for") {
        Some("FOR")
    } else if same_text(keyword, "fun") {
        Some("FUN")
    } else if same_text(keyword, "if") {
        Some("IF")
    } else if same_text(keyword, "nil") {
        Some("NIL")
    } else if same_text(keyword, "or") {
        Some("OR")
    } else if same_text(keyword, "print") {
        Some("PRINT")
    } else if same_text(keyword, "return") {
        Some("RETURN")
    } else if same_text(keyword, "super") {
        Some("SUPER")
    } else if same_text(keyword, "this") {
        Some("THIS")
    } else if same_text(keyword, "true") {
        Some("TRUE")
    } else if same_text(keyword, "var") {
        Some("VAR")
    } else if same_text(keyword, "while") {
        Some("WHILE")
    } else {
        None
    }
}

/// The canonical name of a one-character token, or `None` for any other text.
pub fn get_single_char_tokens(keyword: &str) -> (r: Option<&str>)
    ensures
        name_view(r) == single_char_name(keyword@),
{
    if same_text(keyword, "(") {
        Some("LEFT_PAREN")
    } else if same_text(keyword, ")") {
        Some("RIGHT_PAREN")
    } else if same_text(keyword, "{") {
        Some("LEFT_BRACE")
    } else if same_text(keyword, "}") {
        Some("RIGHT_BRACE")
    } else if same_text(keyword, ",") {
        Some("COMMA")
    } else if same_text(keyword, ";") {
        Some("SEMICOLON")
    } else if same_text(keyword, "+") {
        Some("PLUS")
    } else if same_text(keyword, "-") {
        Some("MINUS")
    } else if same_text(keyword, "*") {
        Some("STAR")
    } else if same_text(keyword, ".") {
        Some("DOT")
    } else if same_text(keyword, "=") {
        Some("EQUAL")
    } else if same_text(keyword, "!") {
        Some("BANG")
    } else if same_text(keyword, ">") {
        Some("GREATER")
    } else if same_text(keyword, "<") {
        Some("LESS")
    } else if same_text(keyword, "/") {
        Some("SLASH")
    } else {
        None
    }
}

/// The canonical name of the two-character operator made of `first` and `=`.
pub open spec fn paired_operator_name(first: char) -> Seq<char> {
    if first == '=' {
        "EQUAL_EQUAL"@
    } else if first == '!' {
        "BANG_EQUAL"@
    } else if first == '<' {
        "LESS_EQUAL"@
    } else {
        "GREATER_EQUAL"@
    }
}

/// The canonical name of the two-character operator made of `first` and `=`;
/// `first` is one of `=`, `!`, `<`, `>`.
pub fn paired_operator(first: char) -> (r: &'static str)
    ensures
        r@ == paired_operator_name(first),
{
    if first == '=' {
        "EQUAL_EQUAL"
    } else if first == '!' {
        "BANG_EQUAL"
    } else if first == '<' {
        "LESS_EQUAL"
    } else {
        "GREATER_EQUAL"
    }
}

} // verus!
