use kese::frontend::lexer::{into_string_token, kind_of, sel_token, tokenize, Token, TokenType};
use kese::global::Span;

fn lex(source: &str) -> Vec<Token> {
    tokenize(&source.to_string())
}

fn kinds(source: &str) -> Vec<(TokenType, String)> {
    lex(source).into_iter().map(|t| (t.token_type, t.lexeme)).collect()
}

fn pair(kind: TokenType, text: &str) -> (TokenType, String) {
    (kind, text.to_string())
}

fn span(line: usize, column: usize, start_pos: usize, end_pos: usize) -> Span {
    Span { line, column, start_pos, end_pos }
}

#[test]
fn line_comment_is_skipped() {
    let tokens = lex("// comment\n42");
    assert_eq!(tokens.len(), 1);
    assert_eq!(tokens[0].token_type, TokenType::Int);
    assert_eq!(tokens[0].lexeme, "42");
    assert_eq!(tokens[0].span, span(1, 0, 11, 12));
}

#[test]
fn block_comment_ends_at_the_first_close() {
    let tokens = lex("/* a /* b */ c */");
    assert_eq!(
        tokens,
        vec![
            Token { token_type: TokenType::Identifier, span: span(0, 13, 13, 13), lexeme: "c".to_string() },
            Token { token_type: TokenType::Operator, span: span(0, 15, 15, 15), lexeme: "*".to_string() },
            Token { token_type: TokenType::Operator, span: span(0, 16, 16, 16), lexeme: "/".to_string() },
        ]
    );
}

#[test]
fn block_comment_tracks_newlines_and_tolerates_the_end() {
    let tokens = lex("/* a\nb */ x");
    assert_eq!(
        tokens,
        vec![Token { token_type: TokenType::Identifier, span: span(1, 5, 10, 10), lexeme: "x".to_string() }]
    );
    assert_eq!(lex("1 /* never closed"), vec![Token {
        token_type: TokenType::Int,
        span: span(0, 0, 0, 0),
        lexeme: "1".to_string()
    }]);
    assert_eq!(kinds("/*/ x"), vec![pair(TokenType::Identifier, "x")]);
}

#[test]
fn string_across_two_lines() {
    let tokens = lex("\"foo\nbar\" x");
    assert_eq!(
        tokens,
        vec![
            Token { token_type: TokenType::String, span: span(0, 1, 1, 7), lexeme: "foo\nbar".to_string() },
            Token { token_type: TokenType::Identifier, span: span(1, 5, 10, 10), lexeme: "x".to_string() },
        ]
    );
}

#[test]
fn strings_keep_their_content_verbatim() {
    assert_eq!(kinds("\"a + // b\""), vec![pair(TokenType::String, "a + // b")]);
    assert_eq!(kinds("\"\""), vec![]);
    assert_eq!(
        kinds("x\"y\"z"),
        vec![
            pair(TokenType::Identifier, "x"),
            pair(TokenType::String, "y"),
            pair(TokenType::Identifier, "z")
        ]
    );
}

#[test]
fn unterminated_string_is_flushed_at_the_end() {
    assert_eq!(
        lex("\"abc"),
        vec![Token { token_type: TokenType::Identifier, span: span(0, 1, 1, 3), lexeme: "abc".to_string() }]
    );
    assert_eq!(lex("\""), vec![]);
}

#[test]
fn spans_reproduce_lexemes() {
    let source = "let y := x + 1\nif y >= 10 { \"s\" } // c\n  z1 == 2.5;";
    let tokens = lex(source);
    assert_eq!(tokens.len(), 17);
    for t in &tokens {
        assert_eq!(&source[t.span.start_pos..=t.span.end_pos], t.lexeme);
        let before = &source[..t.span.start_pos];
        let line_start = before.rfind('\n').map(|p| p + 1).unwrap_or(0);
        assert_eq!(t.span.column, before[line_start..].chars().count());
        assert_eq!(t.span.line, before.matches('\n').count());
    }
    assert_eq!(tokens[2].span, span(0, 6, 6, 7));
    assert_eq!(tokens[16].span, span(2, 11, 50, 50));
}

#[test]
fn spans_count_bytes_and_columns_count_characters() {
    let source = "\"n\u{e9}\" \u{20ac}x /* \u{1f600} */ y\n\u{e9} z";
    let tokens = lex(source);
    assert_eq!(
        tokens,
        vec![
            Token { token_type: TokenType::String, span: span(0, 1, 1, 3), lexeme: "n\u{e9}".to_string() },
            Token { token_type: TokenType::Identifier, span: span(0, 5, 6, 8), lexeme: "\u{20ac}".to_string() },
            Token { token_type: TokenType::Identifier, span: span(0, 6, 9, 9), lexeme: "x".to_string() },
            Token { token_type: TokenType::Identifier, span: span(0, 16, 22, 22), lexeme: "y".to_string() },
            Token { token_type: TokenType::Identifier, span: span(1, 0, 24, 25), lexeme: "\u{e9}".to_string() },
            Token { token_type: TokenType::Identifier, span: span(1, 2, 27, 27), lexeme: "z".to_string() },
        ]
    );
    for t in &tokens {
        assert_eq!(&source[t.span.start_pos..=t.span.end_pos], t.lexeme);
    }
}

#[test]
fn a_skipped_point_lies_inside_the_span() {
    assert_eq!(
        lex("a.b"),
        vec![Token { token_type: TokenType::Identifier, span: span(0, 0, 0, 2), lexeme: "ab".to_string() }]
    );
    assert_eq!(
        lex("a."),
        vec![Token { token_type: TokenType::Identifier, span: span(0, 0, 0, 1), lexeme: "a".to_string() }]
    );
}

#[test]
fn keywords_operators_and_punctuation() {
    assert_eq!(
        kinds("if else mut struct enum func"),
        vec![
            pair(TokenType::Keyword, "if"),
            pair(TokenType::Keyword, "else"),
            pair(TokenType::Keyword, "mut"),
            pair(TokenType::Keyword, "struct"),
            pair(TokenType::Keyword, "enum"),
            pair(TokenType::Keyword, "func"),
        ]
    );
    assert_eq!(
        kinds("+ - * / == > < >= <= ++ !"),
        vec![
            pair(TokenType::Operator, "+"),
            pair(TokenType::Operator, "-"),
            pair(TokenType::Operator, "*"),
            pair(TokenType::Operator, "/"),
            pair(TokenType::Operator, "=="),
            pair(TokenType::Operator, ">"),
            pair(TokenType::Operator, "<"),
            pair(TokenType::Operator, ">="),
            pair(TokenType::Operator, "<="),
            pair(TokenType::Operator, "++"),
            pair(TokenType::Operator, "!"),
        ]
    );
    assert_eq!(
        kinds("= ( ) { } ; : :="),
        vec![
            pair(TokenType::Equals, "="),
            pair(TokenType::LParen, "("),
            pair(TokenType::RParen, ")"),
            pair(TokenType::LBrace, "{"),
            pair(TokenType::RBrace, "}"),
            pair(TokenType::Semicolon, ";"),
            pair(TokenType::Colon, ":"),
            pair(TokenType::ColonEquals, ":="),
        ]
    );
}

#[test]
fn two_character_symbols_are_read_greedily() {
    assert_eq!(
        lex("a>=b"),
        vec![
            Token { token_type: TokenType::Identifier, span: span(0, 0, 0, 0), lexeme: "a".to_string() },
            Token { token_type: TokenType::Operator, span: span(0, 1, 1, 2), lexeme: ">=".to_string() },
            Token { token_type: TokenType::Identifier, span: span(0, 3, 3, 3), lexeme: "b".to_string() },
        ]
    );
    assert_eq!(
        kinds("!= +++ ==="),
        vec![
            pair(TokenType::Operator, "!"),
            pair(TokenType::Equals, "="),
            pair(TokenType::Operator, "++"),
            pair(TokenType::Operator, "+"),
            pair(TokenType::Operator, "=="),
            pair(TokenType::Equals, "="),
        ]
    );
}

#[test]
fn numbers() {
    assert_eq!(kinds("42"), vec![pair(TokenType::Int, "42")]);
    assert_eq!(kinds("1.5"), vec![pair(TokenType::Float, "1.5")]);
    assert_eq!(kinds("5."), vec![pair(TokenType::Float, "5.")]);
    assert_eq!(kinds(".5"), vec![pair(TokenType::Int, "5")]);
    assert_eq!(kinds("1.5.2"), vec![pair(TokenType::Identifier, "1.5.2")]);
    assert_eq!(kinds("9223372036854775807"), vec![pair(TokenType::Int, "9223372036854775807")]);
    assert_eq!(kinds("9223372036854775808"), vec![pair(TokenType::Float, "9223372036854775808")]);
    assert_eq!(kinds("007"), vec![pair(TokenType::Int, "007")]);
    assert_eq!(kinds("1x"), vec![pair(TokenType::Int, "1"), pair(TokenType::Identifier, "x")]);
    assert_eq!(kinds("1.5e3"), vec![pair(TokenType::Float, "1.5"), pair(TokenType::Identifier, "e3")]);
    assert_eq!(kinds("x1"), vec![pair(TokenType::Identifier, "x1")]);
}

#[test]
fn words_that_read_as_floats() {
    assert_eq!(kinds("nan"), vec![pair(TokenType::Float, "nan")]);
    assert_eq!(kinds("Inf"), vec![pair(TokenType::Float, "Inf")]);
    assert_eq!(kinds("info"), vec![pair(TokenType::Float, "inf"), pair(TokenType::Identifier, "o")]);
    assert_eq!(kinds("in"), vec![pair(TokenType::Identifier, "in")]);
}

#[test]
fn booleans_and_identifiers() {
    assert_eq!(
        kinds("true false truth _x let"),
        vec![
            pair(TokenType::Bool, "true"),
            pair(TokenType::Bool, "false"),
            pair(TokenType::Identifier, "truth"),
            pair(TokenType::Identifier, "_x"),
            pair(TokenType::Identifier, "let"),
        ]
    );
}

#[test]
fn unknown_characters_become_tokens_of_their_own() {
    assert_eq!(
        lex("a@\u{e9}"),
        vec![
            Token { token_type: TokenType::Identifier, span: span(0, 0, 0, 0), lexeme: "a".to_string() },
            Token { token_type: TokenType::Identifier, span: span(0, 1, 1, 1), lexeme: "@".to_string() },
            Token { token_type: TokenType::Identifier, span: span(0, 2, 2, 3), lexeme: "\u{e9}".to_string() },
        ]
    );
}

#[test]
fn blanks_and_newlines_separate() {
    assert_eq!(lex(""), vec![]);
    assert_eq!(lex(" \t\n "), vec![]);
    assert_eq!(
        lex("a\tb\n\nc"),
        vec![
            Token { token_type: TokenType::Identifier, span: span(0, 0, 0, 0), lexeme: "a".to_string() },
            Token { token_type: TokenType::Identifier, span: span(0, 2, 2, 2), lexeme: "b".to_string() },
            Token { token_type: TokenType::Identifier, span: span(2, 0, 5, 5), lexeme: "c".to_string() },
        ]
    );
}

#[test]
fn simple_arithmetic_has_three_tokens() {
    assert_eq!(
        kinds("42 + 1"),
        vec![pair(TokenType::Int, "42"), pair(TokenType::Operator, "+"), pair(TokenType::Int, "1")]
    );
}

#[test]
fn token_constructors_and_texts() {
    let s = span(1, 2, 3, 4);
    let t = sel_token(&"while".to_string(), &s);
    assert_eq!(t, Token { token_type: TokenType::Identifier, span: s, lexeme: "while".to_string() });
    let t = into_string_token(&"if".to_string(), &s);
    assert_eq!(t, Token { token_type: TokenType::String, span: s, lexeme: "if".to_string() });
    assert_eq!(t.to_string(), "string `if`");
    assert_eq!(sel_token(&"(".to_string(), &s).to_string(), "`(`");
    assert_eq!(kind_of("-5"), TokenType::Int);
    assert_eq!(kind_of("+.5e-3"), TokenType::Float);
    assert_eq!(kind_of("-"), TokenType::Operator);
    assert_eq!(kind_of(""), TokenType::Identifier);
}

#[test]
fn kinds_as_diagnostics_name_them() {
    let all = [
        (TokenType::Int, "integer "),
        (TokenType::Float, "float "),
        (TokenType::String, "string "),
        (TokenType::Bool, "boolean "),
        (TokenType::Identifier, "identifier "),
        (TokenType::Keyword, "keyword "),
        (TokenType::Operator, "operator "),
        (TokenType::LParen, "`(`"),
        (TokenType::RParen, "`)`"),
        (TokenType::LBrace, "`{`"),
        (TokenType::RBrace, "`}`"),
        (TokenType::Equals, "`=`"),
        (TokenType::Semicolon, "`;`"),
        (TokenType::ColonEquals, "`:=`"),
        (TokenType::Colon, "`:`"),
    ];
    for (kind, text) in all {
        assert_eq!(kind.to_error_repr(), text);
    }
    assert_eq!(TokenType::LParen.to_string(), "");
    assert_eq!(TokenType::Keyword.to_string(), "keyword ");
}
