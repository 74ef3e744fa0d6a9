use stunlex::Lexer;
use stunlex::Span;
use stunlex::TokType;
use stunlex::Token;

fn kinds_of(input: &str) -> Vec<TokType> {
    let mut lex = Lexer::new(input);
    let mut out = Vec::new();
    while let Some(t) = lex.next() {
        out.push(t.kind);
    }
    out
}

#[test]
fn lone_newline_increments_line() {
    let mut lex = Lexer::new("\n");
    assert_eq!(lex.line(), 1);
    assert_eq!(lex.next(), Some(Token::new(TokType::Newline, Span::new(0, 1, 1))));
    assert_eq!(lex.line(), 2);
    assert_eq!(lex.column(), 0);
    assert_eq!(lex.next(), None);
}

#[test]
fn tabs_and_spaces_are_transparent() {
    let mut lex = Lexer::new(" \t \t\t  ");
    assert_eq!(lex.next(), None);
    assert_eq!(lex.line(), 1);
}

#[test]
fn empty_input_ends_immediately() {
    let mut lex = Lexer::new("");
    assert_eq!(lex.next(), None);
    assert_eq!(lex.next(), None);
}

#[test]
fn operator_disambiguation() {
    assert_eq!(kinds_of("="), vec![TokType::Assign]);
    assert_eq!(kinds_of("=="), vec![TokType::Equate]);
    assert_eq!(kinds_of(">="), vec![TokType::GreaterEq]);
    assert_eq!(kinds_of("<="), vec![TokType::LessEq]);
    assert_eq!(kinds_of("~="), vec![TokType::NotEqual]);
    assert_eq!(kinds_of(">"), vec![TokType::Greater]);
    assert_eq!(kinds_of("<"), vec![TokType::Less]);
}

#[test]
fn single_char_symbols() {
    assert_eq!(
        kinds_of("(){}:.+-*/%"),
        vec![
            TokType::LParen,
            TokType::RParen,
            TokType::LBrace,
            TokType::RBrace,
            TokType::Colon,
            TokType::Period,
            TokType::Plus,
            TokType::Minus,
            TokType::Multiply,
            TokType::Divide,
            TokType::Modulo,
        ]
    );
}

#[test]
fn operator_pairs_span_two_columns() {
    let mut lex = Lexer::new(">=");
    assert_eq!(lex.next(), Some(Token::new(TokType::GreaterEq, Span::new(0, 2, 1))));
    assert_eq!(lex.next(), None);
}

#[test]
fn every_keyword_classifies() {
    assert_eq!(kinds_of("true"), vec![TokType::True]);
    assert_eq!(kinds_of("false"), vec![TokType::False]);
    assert_eq!(kinds_of("if"), vec![TokType::If]);
    assert_eq!(kinds_of("function"), vec![TokType::Function]);
    assert_eq!(kinds_of("end"), vec![TokType::End]);
    assert_eq!(kinds_of("local"), vec![TokType::Local]);
    assert_eq!(kinds_of("nil"), vec![TokType::Nil]);
    assert_eq!(kinds_of("while"), vec![TokType::While]);
    assert_eq!(kinds_of("then"), vec![TokType::Then]);
    assert_eq!(kinds_of("and"), vec![TokType::And]);
    assert_eq!(kinds_of("or"), vec![TokType::Or]);
    assert_eq!(kinds_of("not"), vec![TokType::Not]);
    assert_eq!(kinds_of("for"), vec![TokType::For]);
    assert_eq!(kinds_of("do"), vec![TokType::Do]);
}

#[test]
fn near_keywords_stay_identifiers() {
    assert_eq!(kinds_of("truex"), vec![TokType::Ident("truex".into())]);
    assert_eq!(kinds_of("iff"), vec![TokType::Ident("iff".into())]);
    assert_eq!(kinds_of("Do"), vec![TokType::Ident("Do".into())]);
    assert_eq!(kinds_of("_end"), vec![TokType::Ident("_end".into())]);
    assert_eq!(kinds_of("x1_y2"), vec![TokType::Ident("x1_y2".into())]);
}

#[test]
fn integer_number_value() {
    let mut lex = Lexer::new("23");
    let t = lex.next().unwrap();
    assert_eq!(t, Token::new(TokType::Number("23".into()), Span::new(0, 2, 1)));
    match &t.kind {
        TokType::Number(lexeme) => assert_eq!(lexeme.parse::<f64>().unwrap(), 23.0),
        _ => panic!("expected a number token"),
    }
    assert_eq!(lex.next(), None);
}

#[test]
fn fractional_number_value() {
    let mut lex = Lexer::new("2.3");
    let t = lex.next().unwrap();
    assert_eq!(t, Token::new(TokType::Number("2.3".into()), Span::new(0, 3, 1)));
    match &t.kind {
        TokType::Number(lexeme) => assert_eq!(lexeme.parse::<f64>().unwrap(), 2.3),
        _ => panic!("expected a number token"),
    }
}

#[test]
fn trailing_dot_stays_outside_the_number() {
    let mut lex = Lexer::new("23.");
    assert_eq!(lex.next(), Some(Token::new(TokType::Number("23".into()), Span::new(0, 2, 1))));
    assert_eq!(lex.next(), Some(Token::new(TokType::Period, Span::new(2, 3, 1))));
    assert_eq!(lex.next(), None);
}

#[test]
fn member_access_after_number() {
    assert_eq!(
        kinds_of("23.x"),
        vec![TokType::Number("23".into()), TokType::Period, TokType::Ident("x".into())]
    );
}

#[test]
fn doubly_dotted_run_is_undefined() {
    let mut lex = Lexer::new("1.2.3");
    let t = lex.next().unwrap();
    assert_eq!(t, Token::new(TokType::Undefined("1.2.3".into()), Span::new(0, 5, 1)));
    match &t.kind {
        TokType::Undefined(lexeme) => assert!(lexeme.parse::<f64>().is_err()),
        _ => panic!("expected an undefined token"),
    }
}

#[test]
fn string_escape_decodes_quote() {
    let mut lex = Lexer::new("\"a\\\"b\"");
    assert_eq!(
        lex.next(),
        Some(Token::new(TokType::SingleLineString("a\"b".into()), Span::new(0, 6, 1)))
    );
    assert_eq!(lex.next(), None);
}

#[test]
fn unterminated_string_ends_with_buffer() {
    let mut lex = Lexer::new("\"abc");
    assert_eq!(
        lex.next(),
        Some(Token::new(TokType::SingleLineString("abc".into()), Span::new(0, 4, 1)))
    );
    assert_eq!(lex.next(), None);
}

#[test]
fn backslash_without_quote_is_ordinary() {
    assert_eq!(kinds_of("\"a\\b\""), vec![TokType::SingleLineString("a\\b".into())]);
}

#[test]
fn comment_stops_at_newline() {
    let mut lex = Lexer::new("--c\nx");
    assert_eq!(
        lex.next(),
        Some(Token::new(TokType::SingleLineComment("c".into()), Span::new(0, 3, 1)))
    );
    assert_eq!(lex.next(), Some(Token::new(TokType::Newline, Span::new(3, 4, 1))));
    assert_eq!(lex.next(), Some(Token::new(TokType::Ident("x".into()), Span::new(0, 1, 2))));
    assert_eq!(lex.next(), None);
}

#[test]
fn lone_dash_is_minus() {
    let mut lex = Lexer::new("a-b");
    assert_eq!(lex.next(), Some(Token::new(TokType::Ident("a".into()), Span::new(0, 1, 1))));
    assert_eq!(lex.next(), Some(Token::new(TokType::Minus, Span::new(1, 2, 1))));
    assert_eq!(lex.next(), Some(Token::new(TokType::Ident("b".into()), Span::new(2, 3, 1))));
}

#[test]
fn unrecognized_character_is_undefined() {
    assert_eq!(kinds_of("@"), vec![TokType::Undefined("@".into())]);
    assert_eq!(kinds_of("$"), vec![TokType::Undefined("$".into())]);
}

#[test]
fn lone_tilde_is_undefined() {
    let mut lex = Lexer::new("~ ~=");
    assert_eq!(lex.next(), Some(Token::new(TokType::Undefined("~".into()), Span::new(0, 1, 1))));
    assert_eq!(lex.next(), Some(Token::new(TokType::NotEqual, Span::new(2, 4, 1))));
}

#[test]
fn columns_reset_per_line() {
    let mut lex = Lexer::new("ab\n cd");
    assert_eq!(lex.next(), Some(Token::new(TokType::Ident("ab".into()), Span::new(0, 2, 1))));
    assert_eq!(lex.next(), Some(Token::new(TokType::Newline, Span::new(2, 3, 1))));
    assert_eq!(lex.next(), Some(Token::new(TokType::Ident("cd".into()), Span::new(1, 3, 2))));
    assert_eq!(lex.line(), 2);
    assert_eq!(lex.next(), None);
}

#[test]
fn cursor_advances_on_every_token() {
    let mut lex = Lexer::new("local x = 1\n");
    let mut last = lex.cursor();
    let mut produced: u32 = 0;
    while let Some(_) = lex.next() {
        assert!(lex.cursor() > last);
        last = lex.cursor();
        produced += 1;
    }
    assert_eq!(produced, 5);
    assert_eq!(lex.cursor(), 12);
}

#[test]
fn full_statement_scenario() {
    let mut lex = Lexer::new("if x >= 2.5 then y=\"ok\" end");
    assert_eq!(lex.next(), Some(Token::new(TokType::If, Span::new(0, 2, 1))));
    assert_eq!(lex.next(), Some(Token::new(TokType::Ident("x".into()), Span::new(3, 4, 1))));
    assert_eq!(lex.next(), Some(Token::new(TokType::GreaterEq, Span::new(5, 7, 1))));
    assert_eq!(lex.next(), Some(Token::new(TokType::Number("2.5".into()), Span::new(8, 11, 1))));
    assert_eq!(lex.next(), Some(Token::new(TokType::Then, Span::new(12, 16, 1))));
    assert_eq!(lex.next(), Some(Token::new(TokType::Ident("y".into()), Span::new(17, 18, 1))));
    assert_eq!(lex.next(), Some(Token::new(TokType::Assign, Span::new(18, 19, 1))));
    assert_eq!(
        lex.next(),
        Some(Token::new(TokType::SingleLineString("ok".into()), Span::new(19, 23, 1)))
    );
    assert_eq!(lex.next(), Some(Token::new(TokType::End, Span::new(24, 27, 1))));
    assert_eq!(lex.next(), None);
}

#[test]
fn span_accessors_expose_coordinates() {
    let mut lex = Lexer::new("  foo");
    let t = lex.next().unwrap();
    assert_eq!(t.span.start(), 2);
    assert_eq!(t.span.end(), 5);
    assert_eq!(t.span.line(), 1);
}

#[test]
fn spans_address_lines_exactly() {
    let input = "local x = 23\ny =  x + 1\n--done";
    let lines: Vec<&str> = input.split('\n').collect();
    let mut lex = Lexer::new(input);
    while let Some(t) = lex.next() {
        if let TokType::Newline = t.kind {
            continue;
        }
        let line_text = lines[t.span.line() - 1];
        let slice: String = line_text
            .chars()
            .skip(t.span.start())
            .take(t.span.end() - t.span.start())
            .collect();
        match &t.kind {
            TokType::Ident(text) | TokType::Number(text) | TokType::Undefined(text) => {
                assert_eq!(&slice, text)
            }
            TokType::SingleLineComment(text) => assert_eq!(slice, format!("--{}", text)),
            TokType::Local => assert_eq!(slice, "local"),
            TokType::Assign => assert_eq!(slice, "="),
            TokType::Plus => assert_eq!(slice, "+"),
            other => panic!("unexpected token kind: {:?}", other),
        }
    }
}

#[test]
fn multibyte_characters_are_not_split() {
    let mut lex = Lexer::new("é=");
    assert_eq!(lex.next(), Some(Token::new(TokType::Undefined("é".into()), Span::new(0, 1, 1))));
    assert_eq!(lex.next(), Some(Token::new(TokType::Assign, Span::new(1, 2, 1))));
    assert_eq!(lex.next(), None);
}
