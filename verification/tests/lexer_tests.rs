use rucky::lexer::Lexer;
use rucky::token::Token;

#[test]
fn test_next_token() {
    const INPUT: &str = "let five = 5;
let ten = 10;

let add = fn(x, y) {
    x + y;
};

let result = add(five, ten);
!-/*5;
5 < 10 > 5;

if (5 < 10) {
    return true;
} else {
    return false;
}

10 == 10;
10 != 9;
";

    let types: Vec<Token> = vec![
        Token::Let,
        Token::Ident(String::from("five")),
        Token::Assign,
        Token::Int(5),
        Token::Semicolon,
        //
        Token::Let,
        Token::Ident(String::from("ten")),
        Token::Assign,
        Token::Int(10),
        Token::Semicolon,
        //
        Token::Let,
        Token::Ident(String::from("add")),
        Token::Assign,
        Token::Fn,
        Token::Lparen,
        Token::Ident(String::from("x")),
        Token::Comma,
        Token::Ident(String::from("y")),
        Token::Rparen,
        Token::Lbrace,
        //
        Token::Ident(String::from("x")),
        Token::Plus,
        Token::Ident(String::from("y")),
        Token::Semicolon,
        //
        Token::Rbrace,
        Token::Semicolon,
        //
        Token::Let,
        Token::Ident(String::from("result")),
        Token::Assign,
        Token::Ident(String::from("add")),
        Token::Lparen,
        Token::Ident(String::from("five")),
        Token::Comma,
        Token::Ident(String::from("ten")),
        Token::Rparen,
        Token::Semicolon,
        //
        Token::Bang,
        Token::Minus,
        Token::Slash,
        Token::Asterisk,
        Token::Int(5),
        Token::Semicolon,
        //
        Token::Int(5),
        Token::Lt,
        Token::Int(10),
        Token::Gt,
        Token::Int(5),
        Token::Semicolon,
        //
        Token::If,
        Token::Lparen,
        Token::Int(5),
        Token::Lt,
        Token::Int(10),
        Token::Rparen,
        Token::Lbrace,
        Token::Return,
        Token::True,
        Token::Semicolon,
        Token::Rbrace,
        Token::Else,
        Token::Lbrace,
        Token::Return,
        Token::False,
        Token::Semicolon,
        Token::Rbrace,
        //
        Token::Int(10),
        Token::Equal,
        Token::Int(10),
        Token::Semicolon,
        //
        Token::Int(10),
        Token::NotEqual,
        Token::Int(9),
        Token::Semicolon,
        Token::EOF,
    ];

    let mut lexer = Lexer::new(INPUT);

    for (i, token) in types.iter().enumerate() {
        let tok = lexer.next_token();

        if tok != *token {
            panic!(
                "types[{}] - token wrong. expected={:?}, got={:?}",
                i, token, tok
            );
        }
    }
}

#[test]
fn single_char_inputs_yield_one_token_then_eof() {
    let cases: Vec<(&str, Token)> = vec![
        ("+", Token::Plus),
        ("=", Token::Assign),
        (",", Token::Comma),
        (";", Token::Semicolon),
        ("(", Token::Lparen),
        (")", Token::Rparen),
        ("{", Token::Lbrace),
        ("}", Token::Rbrace),
    ];
    for (input, expected) in cases {
        let mut lexer = Lexer::new(input);
        assert_eq!(lexer.next_token(), expected);
        assert_eq!(lexer.next_token(), Token::EOF);
    }
}

#[test]
fn let_binding_tokens() {
    let mut lexer = Lexer::new("let five = 5;");
    let expected = vec![
        Token::Let,
        Token::Ident(String::from("five")),
        Token::Assign,
        Token::Int(5),
        Token::Semicolon,
        Token::EOF,
    ];
    for token in expected {
        assert_eq!(lexer.next_token(), token);
    }
}

#[test]
fn two_char_operators_coalesce() {
    let mut lexer = Lexer::new("10 == 10;");
    let expected = vec![
        Token::Int(10),
        Token::Equal,
        Token::Int(10),
        Token::Semicolon,
        Token::EOF,
    ];
    for token in expected {
        assert_eq!(lexer.next_token(), token);
    }

    let mut lexer = Lexer::new("10 != 9;");
    let expected = vec![
        Token::Int(10),
        Token::NotEqual,
        Token::Int(9),
        Token::Semicolon,
        Token::EOF,
    ];
    for token in expected {
        assert_eq!(lexer.next_token(), token);
    }
}

#[test]
fn eof_is_a_fixed_point() {
    let mut lexer = Lexer::new("+");
    assert_eq!(lexer.next_token(), Token::Plus);
    for _ in 0..5 {
        assert_eq!(lexer.next_token(), Token::EOF);
    }
}

#[test]
fn integer_literal_bounds() {
    let mut lexer = Lexer::new("9223372036854775807");
    assert_eq!(lexer.next_token(), Token::Int(9223372036854775807));
    assert_eq!(lexer.next_token(), Token::EOF);

    let mut lexer = Lexer::new("9223372036854775808");
    assert_eq!(lexer.next_token(), Token::Illegal);
    assert_eq!(lexer.next_token(), Token::EOF);
}

#[test]
fn unrecognized_character_is_illegal() {
    let mut lexer = Lexer::new("@");
    assert_eq!(lexer.next_token(), Token::Illegal);
    assert_eq!(lexer.next_token(), Token::EOF);
}

#[test]
fn underscore_identifier() {
    let mut lexer = Lexer::new("_foo_bar");
    assert_eq!(lexer.next_token(), Token::Ident(String::from("_foo_bar")));
    assert_eq!(lexer.next_token(), Token::EOF);
}

#[test]
fn embedded_nul_is_illegal_not_eof() {
    let mut lexer = Lexer::new("\0+");
    assert_eq!(lexer.next_token(), Token::Illegal);
    assert_eq!(lexer.next_token(), Token::Plus);
    assert_eq!(lexer.next_token(), Token::EOF);
}

#[test]
fn describe_renders_token_payloads() {
    assert_eq!(Token::Int(5).describe(), "Int(5)");
    assert_eq!(Token::Int(-42).describe(), "Int(-42)");
    assert_eq!(Token::Int(i64::MIN).describe(), "Int(-9223372036854775808)");
    assert_eq!(Token::Int(i64::MAX).describe(), "Int(9223372036854775807)");
    assert_eq!(
        Token::Ident(String::from("foo")).describe(),
        "Ident(foo)"
    );
    assert_eq!(Token::Assign.describe(), "Assign");
}

#[test]
fn empty_input_yields_eof() {
    let mut lexer = Lexer::new("");
    assert_eq!(lexer.next_token(), Token::EOF);

    let mut lexer = Lexer::new("  \t\r\n ");
    assert_eq!(lexer.next_token(), Token::EOF);
}
