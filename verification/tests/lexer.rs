use vyn::lexer::Lexer;
use vyn::span::Span;
use vyn::tokens::{Token, TokenType};

fn kinds(src: &str) -> Vec<Token> {
    let mut lexer = Lexer::new(src);
    lexer.tokenize().into_iter().map(|t| t.token).collect()
}

#[test]
fn tokenizes_a_declaration() {
    assert_eq!(
        kinds("let @x: Int;"),
        vec![
            Token::Let,
            Token::At,
            Token::Identifier("x".to_string()),
            Token::Colon,
            Token::Identifier("Int".to_string()),
            Token::Semicolon,
            Token::EndOfFile,
        ]
    );
}

#[test]
fn exactly_one_end_of_file_at_the_end() {
    for src in ["", "\n\n", "x", "a + b\n// note\n", "\"open"] {
        let mut lexer = Lexer::new(src);
        let toks = lexer.tokenize();
        assert!(!toks.is_empty());
        assert_eq!(toks.last().unwrap().token, Token::EndOfFile);
        for t in &toks[..toks.len() - 1] {
            assert_ne!(t.token.get_token_type(), TokenType::EndOfFile);
        }
    }
}

#[test]
fn numbers_and_floats() {
    assert_eq!(kinds("42"), vec![Token::Integer(42), Token::EndOfFile]);
    assert_eq!(kinds("3.25"), vec![Token::Float("3.25".to_string()), Token::EndOfFile]);
    assert_eq!(kinds("7."), vec![Token::Integer(7), Token::Dot, Token::EndOfFile]);
}

#[test]
fn strings_with_escapes() {
    assert_eq!(kinds("\"a\\nb\""), vec![Token::String("a\nb".to_string()), Token::EndOfFile]);
    assert_eq!(kinds("'q'"), vec![Token::String("q".to_string()), Token::EndOfFile]);
}

#[test]
fn two_character_operators() {
    assert_eq!(
        kinds("== != <= >= :: .."),
        vec![
            Token::Equal,
            Token::NotEqual,
            Token::LessThanEqual,
            Token::GreaterThanEqual,
            Token::BoxColon,
            Token::RangeDot,
            Token::EndOfFile,
        ]
    );
}

#[test]
fn keywords_identifiers_and_unicode_letters() {
    assert_eq!(
        kinds("static when ñame _x1"),
        vec![
            Token::Static,
            Token::When,
            Token::Identifier("ñame".to_string()),
            Token::Identifier("_x1".to_string()),
            Token::EndOfFile,
        ]
    );
}

#[test]
fn comments_and_repeated_newlines_are_skipped() {
    assert_eq!(
        kinds("\n\na // c\n\n\nb"),
        vec![Token::Identifier("a".to_string()), Token::Newline, Token::Identifier("b".to_string()), Token::EndOfFile]
    );
}

#[test]
fn spans_track_lines_and_columns() {
    let mut lexer = Lexer::new("ab\n  cd");
    let toks = lexer.tokenize();
    assert_eq!(toks[0].span, Span { line: 1, start_column: 1, end_column: 3 });
    assert_eq!(toks[2].span, Span { line: 2, start_column: 3, end_column: 5 });
}

#[test]
fn illegal_characters_are_tokens() {
    assert_eq!(kinds("$"), vec![Token::Illegal('$'), Token::EndOfFile]);
}

#[test]
fn no_leading_or_repeated_newline_tokens() {
    for src in ["\n\n\nx", "a\n\n\nb", "a\n// c\n\n// d\nb\n\n", "\n  \n\t\nlet x = 1;\n\n"] {
        let toks = kinds(src);
        assert_ne!(toks[0], Token::Newline);
        for w in toks.windows(2) {
            assert!(!(w[0] == Token::Newline && w[1] == Token::Newline));
        }
    }
    assert_eq!(
        kinds("\n\nx\n// c\n\ny"),
        vec![Token::Identifier("x".to_string()), Token::Newline, Token::Identifier("y".to_string()), Token::EndOfFile]
    );
}
