use stackvm::lexer::{word_part, ErrorKind, Lexer, Token};

#[test]
fn lexing_lbracket_works() -> Result<(), ErrorKind> {
    let mut lexer = Lexer::new("(");

    assert_eq!(lexer.run()?, vec![Token::LBracket]);

    Ok(())
}

#[test]
fn lexing_rbracket_works() -> Result<(), ErrorKind> {
    let mut lexer = Lexer::new(")");

    assert_eq!(lexer.run()?, vec![Token::RBracket]);

    Ok(())
}

#[test]
fn lexing_plus_works() -> Result<(), ErrorKind> {
    let mut lexer = Lexer::new("+");

    assert_eq!(lexer.run()?, vec![Token::Plus]);

    Ok(())
}

#[test]
fn lexing_minus_works() -> Result<(), ErrorKind> {
    let mut lexer = Lexer::new("-");

    assert_eq!(lexer.run()?, vec![Token::Minus]);

    Ok(())
}

#[test]
fn lexing_times_works() -> Result<(), ErrorKind> {
    let mut lexer = Lexer::new("*");

    assert_eq!(lexer.run()?, vec![Token::Times]);

    Ok(())
}

#[test]
fn lexing_divide_works() -> Result<(), ErrorKind> {
    let mut lexer = Lexer::new("/");

    assert_eq!(lexer.run()?, vec![Token::Divide]);

    Ok(())
}

#[test]
fn lexing_eq_works() -> Result<(), ErrorKind> {
    let mut lexer = Lexer::new("=");

    assert_eq!(lexer.run()?, vec![Token::Equal]);

    Ok(())
}

#[test]
fn lexing_numbers_works() -> Result<(), ErrorKind> {
    let mut single_num_lexer = Lexer::new(&"1");

    let mut multi_num_lexer = Lexer::new(&"3213");

    assert_eq!(single_num_lexer.run()?, vec![Token::Number(1)]);

    assert_eq!(multi_num_lexer.run()?, vec![Token::Number(3213)]);

    Ok(())
}

#[test]
fn lexing_ident_works() -> Result<(), ErrorKind> {
    let mut single_char_lexer = Lexer::new(&"x");

    let mut multi_char_lexer = Lexer::new(&"heLLo");

    let mut must_not_start_with_num_lexer = Lexer::new(&"3ff");

    let mut can_contain_underscores = Lexer::new("x_y_z");

    assert_eq!(single_char_lexer.run()?, vec![Token::Ident("x".to_string())]);

    assert_eq!(multi_char_lexer.run()?, vec![Token::Ident("heLLo".to_string())]);

    assert_eq!(
        must_not_start_with_num_lexer.run()?,
        vec![Token::Number(3), Token::Ident("ff".to_string())]
    );

    assert_eq!(can_contain_underscores.run()?, vec![Token::Ident("x_y_z".to_string())]);

    Ok(())
}

#[test]
fn lexing_let_is_a_keyword() -> Result<(), ErrorKind> {
    let mut lexer = Lexer::new("let letter = 1");

    assert_eq!(
        lexer.run()?,
        vec![Token::Let, Token::Ident("letter".to_string()), Token::Equal, Token::Number(1)]
    );

    Ok(())
}

#[test]
fn lexing_an_expression_works() -> Result<(), ErrorKind> {
    let mut lexer = Lexer::new("(400+400)*2");

    assert_eq!(
        lexer.run()?,
        vec![
            Token::LBracket,
            Token::Number(400),
            Token::Plus,
            Token::Number(400),
            Token::RBracket,
            Token::Times,
            Token::Number(2),
        ]
    );

    Ok(())
}

#[test]
fn lexing_skips_blanks() -> Result<(), ErrorKind> {
    let mut lexer = Lexer::new(" 1\t+\r2 ");

    assert_eq!(lexer.run()?, vec![Token::Number(1), Token::Plus, Token::Number(2)]);

    Ok(())
}

#[test]
fn lexing_empty_text_gives_no_tokens() -> Result<(), ErrorKind> {
    let mut lexer = Lexer::new("");

    assert_eq!(lexer.run()?, vec![]);

    Ok(())
}

#[test]
fn lexing_rejects_a_newline() {
    let mut lexer = Lexer::new("1\n2");

    assert!(matches!(lexer.run(), Err(ErrorKind::UnexpectedToken('\n'))));
}

#[test]
fn lexing_rejects_a_word_that_starts_with_an_underscore() {
    let mut lexer = Lexer::new("_x");

    assert!(matches!(lexer.run(), Err(ErrorKind::UnexpectedToken('_'))));
}

#[test]
fn lexing_reports_the_first_bad_character() {
    let mut lexer = Lexer::new("1 + ? !");

    assert!(matches!(lexer.run(), Err(ErrorKind::UnexpectedToken('?'))));
}

#[test]
fn lexing_words_go_on_with_unicode_letters_and_numbers() -> Result<(), ErrorKind> {
    let mut letters = Lexer::new("caf\u{e9}");

    let mut numbers = Lexer::new("x\u{663}");

    assert_eq!(letters.run()?, vec![Token::Ident("caf\u{e9}".to_string())]);

    assert_eq!(numbers.run()?, vec![Token::Ident("x\u{663}".to_string())]);

    Ok(())
}

#[test]
fn lexing_words_end_at_other_unicode_characters() {
    let mut lexer = Lexer::new("x\u{20ac}");

    assert!(matches!(lexer.run(), Err(ErrorKind::UnexpectedToken('\u{20ac}'))));
}

#[test]
fn lexing_words_do_not_start_with_unicode_letters() {
    let mut lexer = Lexer::new("\u{e9}");

    assert!(matches!(lexer.run(), Err(ErrorKind::UnexpectedToken('\u{e9}'))));
}

#[test]
fn lexing_numbers_end_at_unicode_digits() {
    let mut lexer = Lexer::new("1\u{663}");

    assert!(matches!(lexer.run(), Err(ErrorKind::UnexpectedToken('\u{663}'))));
}

#[test]
fn lexing_wide_numbers_wrap() -> Result<(), ErrorKind> {
    let mut largest = Lexer::new("2147483647");

    let mut one_more = Lexer::new("2147483648");

    let mut two_to_the_32 = Lexer::new("4294967296");

    let mut leading_zeros = Lexer::new("007");

    assert_eq!(largest.run()?, vec![Token::Number(2147483647)]);

    assert_eq!(one_more.run()?, vec![Token::Number(-2147483648)]);

    assert_eq!(two_to_the_32.run()?, vec![Token::Number(0)]);

    assert_eq!(leading_zeros.run()?, vec![Token::Number(7)]);

    Ok(())
}

#[test]
fn lexing_twice_gives_the_same_tokens() -> Result<(), ErrorKind> {
    let mut lexer = Lexer::new("let x = 1");

    let first = lexer.run()?;

    assert_eq!(lexer.run()?, first);

    Ok(())
}

fn chars(text: &str) -> Vec<char> {
    text.chars().collect()
}

#[test]
fn lex_number_reads_the_digits_that_follow() {
    let lexer = Lexer::new("");

    let (token, end) = lexer.lex_number('4', &chars("x213+5"), 1).unwrap();

    assert_eq!(token, Token::Number(4213));
    assert_eq!(end, 4);
}

#[test]
fn lex_number_of_one_digit() {
    let lexer = Lexer::new("");

    for pos in [0, 1, 2, 9] {
        let (token, end) = lexer.lex_number('7', &chars("a1"), pos).unwrap();

        if pos == 1 {
            assert_eq!(token, Token::Number(71));
            assert_eq!(end, 2);
        } else {
            assert_eq!(token, Token::Number(7));
            assert_eq!(end, pos);
        }
    }
}

#[test]
fn lex_number_rejects_what_is_no_digit() {
    let lexer = Lexer::new("");

    for first in ['x', '+', '-', ' ', '\u{663}'] {
        assert!(matches!(
            lexer.lex_number(first, &chars("123"), 0),
            Err(ErrorKind::UnexpectedToken(c)) if c == first
        ));
    }
}

#[test]
fn lex_ident_reads_the_word_characters_that_follow() {
    let lexer = Lexer::new("");

    let (word, end) = lexer.lex_ident('a', &chars("?b_1\u{e9} c"), 1).unwrap();

    assert_eq!(word, "ab_1\u{e9}");
    assert_eq!(end, 5);
}

#[test]
fn lex_ident_of_one_letter() {
    let lexer = Lexer::new("");

    for pos in [0, 2, 3, 9] {
        let (word, end) = lexer.lex_ident('q', &chars("+ab"), pos).unwrap();

        if pos == 2 {
            assert_eq!(word, "qb");
            assert_eq!(end, 3);
        } else {
            assert_eq!(word, "q");
            assert_eq!(end, pos);
        }
    }
}

#[test]
fn word_parts_are_letters_digits_and_underscores() {
    for c in ['a', 'z', 'A', 'Z', '0', '9', '_', '\u{e9}', '\u{663}', '\u{4e2d}'] {
        assert!(word_part(c));
    }

    let others =
        [' ', '-', '+', '(', '@', '[', '`', '{', '/', ':', '\n', '\u{7f}', '\u{20ac}', '\u{a0}'];

    for c in others {
        assert!(!word_part(c));
    }
}

#[test]
fn word_parts_are_what_std_calls_alphanumeric_or_an_underscore() {
    for code in 0..0x3000u32 {
        if let Some(c) = char::from_u32(code) {
            assert_eq!(word_part(c), c.is_alphanumeric() || c == '_');
        }
    }
}
