use beatrice::parser::{Parser, AST};
use beatrice::tokenizer::{tokenize, LexError, Operator, Reserved, TokenKind};

#[test]
fn test_tokenize_keywords_and_identifiers() {
    let toks = tokenize("let mut foo = bar + 42;").unwrap();
    assert_eq!(toks.len(), 9);
    assert!(matches!(&toks[0].kind, TokenKind::Reserved(Reserved::Let)));
    assert!(matches!(&toks[1].kind, TokenKind::Reserved(Reserved::Mut)));
    assert!(matches!(&toks[2].kind, TokenKind::Identifier(s) if s == "foo"));
    assert!(matches!(
        &toks[3].kind,
        TokenKind::Operator(Operator::Eq(false))
    ));
    assert!(matches!(&toks[4].kind, TokenKind::Identifier(s) if s == "bar"));
    assert!(matches!(
        &toks[5].kind,
        TokenKind::Operator(Operator::Add(false))
    ));
    assert!(matches!(&toks[6].kind, TokenKind::Int(s) if s == "42"));
    assert!(matches!(&toks[7].kind, TokenKind::SemiColon));
    assert!(matches!(&toks[8].kind, TokenKind::EOF));
}

#[test]
fn test_tokenize_operators() {
    // `**=` is the compound power operator.
    let toks = tokenize("x **= y").unwrap();
    assert!(matches!(
        &toks[1].kind,
        TokenKind::Operator(Operator::Pow(true))
    ));

    // Doubled `&` and `|` are the logical forms.
    let toks = tokenize("a && b || c").unwrap();
    assert!(matches!(
        &toks[1].kind,
        TokenKind::Operator(Operator::And(false))
    ));
    assert!(matches!(
        &toks[3].kind,
        TokenKind::Operator(Operator::Or(false))
    ));

    // `<` directly followed by `=` carries the compound flag.
    let toks = tokenize("a <= b").unwrap();
    assert!(matches!(
        &toks[1].kind,
        TokenKind::Operator(Operator::Lt(true))
    ));

    // `->` is the arrow.
    let toks = tokenize("-> >> <<").unwrap();
    assert!(matches!(&toks[0].kind, TokenKind::Operator(Operator::Arrow)));
    assert!(matches!(
        &toks[1].kind,
        TokenKind::Operator(Operator::BitRight(false))
    ));
    assert!(matches!(
        &toks[2].kind,
        TokenKind::Operator(Operator::BitLeft(false))
    ));

    // `++` and `--`.
    let toks = tokenize("i++ j--").unwrap();
    assert!(matches!(
        &toks[1].kind,
        TokenKind::Operator(Operator::Increment)
    ));
    assert!(matches!(
        &toks[3].kind,
        TokenKind::Operator(Operator::Decrement)
    ));
}

#[test]
fn test_tokenize_numeric_literals() {
    let toks = tokenize("52").unwrap();
    assert_eq!(toks.len(), 2);
    assert!(matches!(&toks[0].kind, TokenKind::Int(s) if s == "52"));
    assert!(matches!(&toks[1].kind, TokenKind::EOF));

    let toks = tokenize("0x1F").unwrap();
    assert_eq!(toks.len(), 2);
    assert!(matches!(&toks[0].kind, TokenKind::Int(s) if s == "0x1F"));

    // An uppercase hexadecimal prefix is carried as `0x`.
    let toks = tokenize("0X2a").unwrap();
    assert!(matches!(&toks[0].kind, TokenKind::Int(s) if s == "0x2a"));

    let toks = tokenize("0b101").unwrap();
    assert!(matches!(&toks[0].kind, TokenKind::Int(s) if s == "0b101"));

    let toks = tokenize("8.5").unwrap();
    assert!(matches!(&toks[0].kind, TokenKind::Float(s) if s == "8.5"));

    let toks = tokenize("0").unwrap();
    assert!(matches!(&toks[0].kind, TokenKind::Int(s) if s == "0"));
}

#[test]
fn test_tokenize_fatal_faults() {
    // A second decimal point inside one numeral is fatal.
    assert!(matches!(tokenize("3..14"), Err(LexError::DoubleDecimalPoint)));
    assert!(matches!(tokenize("1.2.3"), Err(LexError::DoubleDecimalPoint)));
    assert!(matches!(
        tokenize("let x = 1.2.3;"),
        Err(LexError::DoubleDecimalPoint)
    ));

    // A leading zero followed by a character that continues no numeral is
    // fatal.
    assert!(matches!(
        tokenize("0z12"),
        Err(LexError::InvalidNumericPrefix)
    ));
    assert!(matches!(
        tokenize("0.5"),
        Err(LexError::InvalidNumericPrefix)
    ));
}

#[test]
fn test_tokenize_positions_and_skipped_characters() {
    // Lines advance on any non-space whitespace; columns reset.
    let toks = tokenize("a\nb").unwrap();
    assert_eq!(toks[0].line, 0);
    assert_eq!(toks[1].line, 1);
    assert_eq!(toks[1].column, 0);

    // Characters matching no token class are silently skipped.
    let toks = tokenize("a $ b").unwrap();
    assert_eq!(toks.len(), 3);
    assert!(matches!(&toks[0].kind, TokenKind::Identifier(s) if s == "a"));
    assert!(matches!(&toks[1].kind, TokenKind::Identifier(s) if s == "b"));
}

#[test]
fn test_parse_int_radix_values() {
    // Decimal, hexadecimal and binary literal texts convert at their radix.
    assert!(matches!(Parser::parse_int("52".to_string()), AST::Int(52)));
    assert!(matches!(Parser::parse_int("0x1F".to_string()), AST::Int(31)));
    assert!(matches!(Parser::parse_int("0X1F".to_string()), AST::Int(31)));
    assert!(matches!(Parser::parse_int("0b101".to_string()), AST::Int(5)));
    assert!(matches!(Parser::parse_int("0".to_string()), AST::Int(0)));
    assert!(matches!(Parser::parse_int("052".to_string()), AST::Int(52)));

    // The largest representable value converts exactly; a larger one
    // saturates there.
    assert!(matches!(
        Parser::parse_int("9223372036854775807".to_string()),
        AST::Int(9223372036854775807)
    ));
    assert!(matches!(
        Parser::parse_int("9223372036854775808".to_string()),
        AST::Int(9223372036854775807)
    ));

    // A malformed literal text counts zero.
    assert!(matches!(Parser::parse_int("abc".to_string()), AST::Int(0)));
    assert!(matches!(Parser::parse_int("0x".to_string()), AST::Int(0)));
}

#[test]
fn test_tokenize_then_parse_int_round_trip() {
    // Lexing a literal and converting the token's text reproduces the
    // radix value.
    for (text, value) in [
        ("7", 7i64),
        ("123456", 123456),
        ("0xfF", 255),
        ("0b1101", 13),
    ] {
        let toks = tokenize(text).unwrap();
        match &toks[0].kind {
            TokenKind::Int(s) => {
                assert!(matches!(Parser::parse_int(s.clone()), AST::Int(v) if v == value));
            }
            other => panic!("expected an integer token, got {:?}", other),
        }
    }
}

#[test]
fn test_operator_precedence_and_compound_flag() {
    assert_eq!(Operator::Star(false).precedence(), 2);
    assert_eq!(Operator::Slash(false).precedence(), 2);
    assert_eq!(Operator::Add(false).precedence(), 3);
    assert_eq!(Operator::Sub(false).precedence(), 3);
    assert_eq!(Operator::Pow(false).precedence(), 1);
    assert_eq!(Operator::Arrow.precedence(), 11);
    assert_eq!(Operator::Eq(false).precedence(), 12);
    assert_eq!(Operator::Lt(false).precedence(), 8);

    assert!(Operator::Add(true).has_eq());
    assert!(!Operator::Add(false).has_eq());
    assert!(!Operator::Arrow.has_eq());
    assert!(!Operator::Increment.has_eq());

    assert_eq!(Operator::Add(true).text(), "+=");
    assert_eq!(Operator::Pow(false).text(), "**");
    assert_eq!(Operator::Arrow.text(), "->");
}

#[test]
fn test_parser_eat_and_peek() {
    let mut p = Parser::from_content("a b").unwrap();
    assert!(matches!(&p.peek().unwrap().kind, TokenKind::Identifier(s) if s == "a"));
    assert!(matches!(p.eat().unwrap().kind, TokenKind::Identifier(s) if s == "a"));
    assert!(matches!(p.eat().unwrap().kind, TokenKind::Identifier(s) if s == "b"));
    assert!(matches!(p.eat().unwrap().kind, TokenKind::EOF));
    assert!(p.peek().is_none());
    let e = p.eat().unwrap_err();
    assert!(matches!(
        e.kind,
        beatrice::parser::AstErrorKind::EatingEOF
    ));
}
