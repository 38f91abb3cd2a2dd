use lexer::lexer::Lexer;
use lexer::token::Token;

fn all_tokens(input: &str) -> Vec<Token> {
    let mut lx = Lexer::new(input);
    let mut out = Vec::new();
    loop {
        let t = lx.next_token();
        let done = t == Token::Eof;
        out.push(t);
        if done {
            return out;
        }
    }
}

#[test]
fn end_of_input_repeats_on_empty_input() {
    let mut lx = Lexer::new("");
    assert_eq!(lx.next_token(), Token::Eof);
    assert_eq!(lx.next_token(), Token::Eof);
    assert_eq!(lx.next_token(), Token::Eof);
}

#[test]
fn end_of_input_repeats_after_tokens() {
    let mut lx = Lexer::new("x 1");
    assert_eq!(lx.next_token(), Token::Ident(String::from("x")));
    assert_eq!(lx.next_token(), Token::Int(1));
    assert_eq!(lx.next_token(), Token::Eof);
    assert_eq!(lx.next_token(), Token::Eof);
    assert_eq!(lx.next_token(), Token::Eof);
}

#[test]
fn unrecognized_single_characters_are_illegal() {
    for c in ['#', '@', '$', '%', '?', '^', '&', '.', '[', ']', '"'] {
        let input = c.to_string();
        let mut lx = Lexer::new(&input);
        assert_eq!(lx.next_token(), Token::Illegal(c));
        assert_eq!(lx.next_token(), Token::Eof);
    }
}

#[test]
fn digit_runs_become_one_integer_literal() {
    assert_eq!(all_tokens("0"), vec![Token::Int(0), Token::Eof]);
    assert_eq!(all_tokens("7"), vec![Token::Int(7), Token::Eof]);
    assert_eq!(all_tokens("123"), vec![Token::Int(123), Token::Eof]);
    assert_eq!(all_tokens("007"), vec![Token::Int(7), Token::Eof]);
    assert_eq!(
        all_tokens("1234567890"),
        vec![Token::Int(1234567890), Token::Eof]
    );
}

#[test]
fn oversized_integer_literal_saturates() {
    // Far beyond any machine word: the documented policy pins it at the top.
    assert_eq!(
        all_tokens("99999999999999999999999999999999999999"),
        vec![Token::Int(usize::MAX), Token::Eof]
    );
}

#[test]
fn digit_run_stops_at_letter() {
    assert_eq!(
        all_tokens("123abc"),
        vec![
            Token::Int(123),
            Token::Ident(String::from("abc")),
            Token::Eof
        ]
    );
}

#[test]
fn keywords_are_reclassified() {
    assert_eq!(all_tokens("fn"), vec![Token::Func, Token::Eof]);
    assert_eq!(all_tokens("let"), vec![Token::Let, Token::Eof]);
    assert_eq!(all_tokens("if"), vec![Token::If, Token::Eof]);
    assert_eq!(all_tokens("else"), vec![Token::Else, Token::Eof]);
    assert_eq!(all_tokens("true"), vec![Token::Bool(true), Token::Eof]);
    assert_eq!(all_tokens("false"), vec![Token::Bool(false), Token::Eof]);
    assert_eq!(all_tokens("return"), vec![Token::Return, Token::Eof]);
}

#[test]
fn non_keywords_stay_identifiers() {
    for name in ["foo", "x1_y", "truthy", "letx", "returns", "a123", "Fn"] {
        assert_eq!(
            all_tokens(name),
            vec![Token::Ident(String::from(name)), Token::Eof]
        );
    }
}

#[test]
fn look_up_ident_maps_keywords() {
    assert_eq!(Token::look_up_ident(String::from("fn")), Token::Func);
    assert_eq!(Token::look_up_ident(String::from("let")), Token::Let);
    assert_eq!(Token::look_up_ident(String::from("if")), Token::If);
    assert_eq!(Token::look_up_ident(String::from("else")), Token::Else);
    assert_eq!(Token::look_up_ident(String::from("true")), Token::Bool(true));
    assert_eq!(
        Token::look_up_ident(String::from("false")),
        Token::Bool(false)
    );
    assert_eq!(Token::look_up_ident(String::from("return")), Token::Return);
    assert_eq!(
        Token::look_up_ident(String::from("other")),
        Token::Ident(String::from("other"))
    );
}

#[test]
fn assign_versus_equality() {
    assert_eq!(all_tokens("="), vec![Token::Assign, Token::Eof]);
    assert_eq!(all_tokens("=="), vec![Token::Equal, Token::Eof]);
    assert_eq!(
        all_tokens("==="),
        vec![Token::Equal, Token::Assign, Token::Eof]
    );
    assert_eq!(
        all_tokens("= ="),
        vec![Token::Assign, Token::Assign, Token::Eof]
    );
    assert_eq!(
        all_tokens("=5"),
        vec![Token::Assign, Token::Int(5), Token::Eof]
    );
}

#[test]
fn bang_versus_inequality() {
    assert_eq!(all_tokens("!"), vec![Token::Bang, Token::Eof]);
    assert_eq!(all_tokens("!="), vec![Token::NotEqual, Token::Eof]);
    assert_eq!(all_tokens("!!"), vec![Token::Bang, Token::Bang, Token::Eof]);
    assert_eq!(
        all_tokens("! ="),
        vec![Token::Bang, Token::Assign, Token::Eof]
    );
}

#[test]
fn whitespace_is_never_a_token() {
    assert_eq!(all_tokens("   \t\r\n  "), vec![Token::Eof]);
    assert_eq!(
        all_tokens("  \t 5 \r\n\t 6 \n"),
        vec![Token::Int(5), Token::Int(6), Token::Eof]
    );
    assert_eq!(
        all_tokens("a\nb"),
        vec![
            Token::Ident(String::from("a")),
            Token::Ident(String::from("b")),
            Token::Eof
        ]
    );
}

#[test]
fn single_character_operators_and_delimiters() {
    assert_eq!(
        all_tokens("+-*/<>,;(){}"),
        vec![
            Token::Plus,
            Token::Minus,
            Token::Asterisk,
            Token::Slash,
            Token::LessThan,
            Token::GreaterThan,
            Token::Comma,
            Token::Semicolon,
            Token::LeftParen,
            Token::RightParen,
            Token::LeftBrace,
            Token::RightBrace,
            Token::Eof
        ]
    );
}

#[test]
fn underscore_cannot_start_an_identifier() {
    assert_eq!(
        all_tokens("_x x_"),
        vec![
            Token::Illegal('_'),
            Token::Ident(String::from("x")),
            Token::Ident(String::from("x_")),
            Token::Eof
        ]
    );
}

#[test]
fn character_classes_are_ascii_only() {
    // The scanner fixes its character classes to ASCII; a letter outside
    // that range matches no rule.
    assert_eq!(all_tokens("\u{e9}"), vec![Token::Illegal('\u{e9}'), Token::Eof]);
}

#[test]
fn scenario_let_statement() {
    assert_eq!(
        all_tokens("let five = 5;"),
        vec![
            Token::Let,
            Token::Ident(String::from("five")),
            Token::Assign,
            Token::Int(5),
            Token::Semicolon,
            Token::Eof
        ]
    );
}

#[test]
fn scenario_if_else() {
    assert_eq!(
        all_tokens("if (5 < 10) { return true; } else { return false; }"),
        vec![
            Token::If,
            Token::LeftParen,
            Token::Int(5),
            Token::LessThan,
            Token::Int(10),
            Token::RightParen,
            Token::LeftBrace,
            Token::Return,
            Token::Bool(true),
            Token::Semicolon,
            Token::RightBrace,
            Token::Else,
            Token::LeftBrace,
            Token::Return,
            Token::Bool(false),
            Token::Semicolon,
            Token::RightBrace,
            Token::Eof
        ]
    );
}

#[test]
fn scenario_comparisons() {
    assert_eq!(
        all_tokens("10 == 10; 10 != 9;"),
        vec![
            Token::Int(10),
            Token::Equal,
            Token::Int(10),
            Token::Semicolon,
            Token::Int(10),
            Token::NotEqual,
            Token::Int(9),
            Token::Semicolon,
            Token::Eof
        ]
    );
}

#[test]
fn scenario_single_illegal_character() {
    assert_eq!(all_tokens("#"), vec![Token::Illegal('#'), Token::Eof]);
}
