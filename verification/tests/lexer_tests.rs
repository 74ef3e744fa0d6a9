use stunlex::Lexer;
use stunlex::Span;
use stunlex::TokType;
use stunlex::Token;

#[test]
fn whitespace() {
    let input = "    ";

    let mut lex = Lexer::new(input);
    assert_eq!(lex.next(), None);
}

#[test]
fn equate_and_assign() {
    let input = "= ==";
    let mut lex = Lexer::new(input);

    assert_eq!(lex.next(), Some(Token::new(TokType::Assign, Span::new(0, 1, 1))));

    assert_eq!(lex.next(), Some(Token::new(TokType::Equate, Span::new(2, 4, 1))));
}

#[test]
fn var_assign_num() {
    let input = "      x=  23  ";
    let mut lex = Lexer::new(input);

    assert_eq!(lex.next(), Some(Token::new(TokType::Ident("x".into()), Span::new(6, 7, 1))));

    assert_eq!(lex.next(), Some(Token::new(TokType::Assign, Span::new(7, 8, 1))));

    let num = lex.next().unwrap();
    assert_eq!(num, Token::new(TokType::Number("23".into()), Span::new(10, 12, 1)));
    match &num.kind {
        TokType::Number(lexeme) => assert_eq!(lexeme.parse::<f64>().unwrap(), 23.0),
        _ => panic!("expected a number token"),
    }
}

#[test]
fn var_assign_bool() {
    let input = "xgfd =true";
    let mut lex = Lexer::new(input);

    assert_eq!(lex.next(), Some(Token::new(TokType::Ident("xgfd".into()), Span::new(0, 4, 1))));

    assert_eq!(lex.next(), Some(Token::new(TokType::Assign, Span::new(5, 6, 1))));

    assert_eq!(lex.next(), Some(Token::new(TokType::True, Span::new(6, 10, 1))));
}

#[test]
fn single_line_comment() {
    let input = "-- hello world!";
    let mut lex = Lexer::new(input);

    assert_eq!(
        lex.next(),
        Some(Token::new(TokType::SingleLineComment(" hello world!".into()), Span::new(0, 15, 1)))
    );
}

#[test]
fn single_line_string() {
    let input = "x=\"str\"";
    let mut lex = Lexer::new(input);

    assert_eq!(lex.next(), Some(Token::new(TokType::Ident("x".into()), Span::new(0, 1, 1))));

    assert_eq!(lex.next(), Some(Token::new(TokType::Assign, Span::new(1, 2, 1))));

    assert_eq!(
        lex.next(),
        Some(Token::new(TokType::SingleLineString("str".into()), Span::new(2, 7, 1)))
    );
}

#[test]
fn var_assign_float() {
    let input = "      x=  2.3  ";
    let mut lex = Lexer::new(input);

    assert_eq!(lex.next(), Some(Token::new(TokType::Ident("x".into()), Span::new(6, 7, 1))));

    assert_eq!(lex.next(), Some(Token::new(TokType::Assign, Span::new(7, 8, 1))));

    let num = lex.next().unwrap();
    assert_eq!(num, Token::new(TokType::Number("2.3".into()), Span::new(10, 13, 1)));
    match &num.kind {
        TokType::Number(lexeme) => assert_eq!(lexeme.parse::<f64>().unwrap(), 2.3),
        _ => panic!("expected a number token"),
    }
}

#[test]
fn tests_whitespace() {
    let input = "    ";

    let mut lex = Lexer::new(input);
    assert_eq!(lex.next(), None);
}

#[test]
fn tests_equate_and_assign() {
    let input = "= ==";
    let mut lex = Lexer::new(input);

    assert_eq!(lex.next(), Some(Token::new(TokType::Assign, Span::new(0, 1, 1))));

    assert_eq!(lex.next(), Some(Token::new(TokType::Equate, Span::new(2, 4, 1))));
}

#[test]
fn tests_var_assign_num() {
    let input = "      x=  23  ";
    let mut lex = Lexer::new(input);

    assert_eq!(lex.next(), Some(Token::new(TokType::Ident("x".into()), Span::new(6, 7, 1))));

    assert_eq!(lex.next(), Some(Token::new(TokType::Assign, Span::new(7, 8, 1))));

    let num = lex.next().unwrap();
    assert_eq!(num, Token::new(TokType::Number("23".into()), Span::new(10, 12, 1)));
    match &num.kind {
        TokType::Number(lexeme) => assert_eq!(lexeme.parse::<f64>().unwrap(), 23.0),
        _ => panic!("expected a number token"),
    }
}

#[test]
fn tests_var_assign_bool() {
    let input = "xgfd =true";
    let mut lex = Lexer::new(input);

    assert_eq!(lex.next(), Some(Token::new(TokType::Ident("xgfd".into()), Span::new(0, 4, 1))));

    assert_eq!(lex.next(), Some(Token::new(TokType::Assign, Span::new(5, 6, 1))));

    assert_eq!(lex.next(), Some(Token::new(TokType::True, Span::new(6, 10, 1))));
}

#[test]
fn tests_single_line_comment() {
    let input = "--whats up, cool comment, huh?";
    let mut lex = Lexer::new(input);

    assert_eq!(
        lex.next(),
        Some(Token::new(
            TokType::SingleLineComment("whats up, cool comment, huh?".into()),
            Span::new(0, 30, 1)
        ))
    );
}
