use rucky::ast::{Expr, Ident, Infix, Literal, Prefix, Stmt};
use rucky::lexer::Lexer;
use rucky::parser::Parser;

fn check_parser_errors(p: &Parser) {
    let errors = p.errors();
    if errors.len() == 0 {
        return;
    }

    println!("parser has {} erros", errors.len());
    for msg in errors.iter() {
        println!("parser error: {}", msg);
    }
    panic!("");
}

#[test]
fn test_let_statements() {
    let input = r#"
let x = 5;
let y = 10;
let foobar = 838383;
"#;

    let l = Lexer::new(input);
    let mut p = Parser::new(l);

    let program = p.parse_program();
    let len = program.len();

    check_parser_errors(&p);

    if len == 0 {
        panic!("parse_program() returned empty");
    } else if len != 3 {
        panic!("Program does not contain 3 statements. got={}", len);
    }

    let tests: Vec<Stmt> = vec![
        Stmt::Let(Ident(String::from("x")), Expr::Literal(Literal::Int(5))),
        Stmt::Let(Ident(String::from("y")), Expr::Literal(Literal::Int(10))),
        Stmt::Let(
            Ident(String::from("foobar")),
            Expr::Literal(Literal::Int(838383)),
        ),
    ];

    for (i, tt) in tests.iter().enumerate() {
        let stmt = &program[i];
        if stmt != tt {
            panic!("got={:?}. expected={:?}", stmt, tt);
        }
    }
}

#[test]
fn test_return_statements() {
    let input = r#"
return 5;
return 10;
return 993322;
"#;

    let l = Lexer::new(input);
    let mut p = Parser::new(l);

    let program = p.parse_program();
    let len = program.len();

    check_parser_errors(&p);

    if len == 0 {
        panic!("parse_program() returned empty");
    } else if len != 3 {
        panic!("Program does not contain 3 statements. got={}", len);
    }

    let tests: Vec<Stmt> = vec![
        Stmt::Return(Expr::Literal(Literal::Int(5))),
        Stmt::Return(Expr::Literal(Literal::Int(10))),
        Stmt::Return(Expr::Literal(Literal::Int(993322))),
    ];

    for (i, tt) in tests.iter().enumerate() {
        let stmt = &program[i];
        if stmt != tt {
            panic!("got={:?}. expected={:?}", stmt, tt);
        }
    }
}

#[test]
fn test_ident_expr() {
    let input = "foobar;";

    let l = Lexer::new(input);
    let mut p = Parser::new(l);
    let program = p.parse_program();
    let len = program.len();

    check_parser_errors(&p);

    if len == 0 {
        panic!("Program has not enought statments. got={}", len);
    }

    let tests: Vec<Stmt> = vec![Stmt::Expr(Expr::Ident(Ident(String::from("foobar"))))];

    if program != tests {
        panic!("got={:?}. expected={:?}", program, tests);
    }
}

#[test]
fn test_int_expr() {
    let input = "5;";

    let l = Lexer::new(input);
    let mut p = Parser::new(l);
    let program = p.parse_program();
    let len = program.len();

    check_parser_errors(&p);

    if len == 0 {
        panic!("Program has not enought statments. got={}", len);
    }

    let tests: Vec<Stmt> = vec![Stmt::Expr(Expr::Literal(Literal::Int(5)))];

    if program != tests {
        panic!("got={:?}. expected={:?}", program, tests);
    }
}

#[test]
fn test_prefix_expr() {
    let tests: Vec<(&str, Vec<Stmt>)> = vec![
        (
            "!5;",
            vec![Stmt::Expr(Expr::Prefix(
                Prefix::Bang,
                Box::new(Expr::Literal(Literal::Int(5))),
            ))],
        ),
        (
            "-15;",
            vec![Stmt::Expr(Expr::Prefix(
                Prefix::Minus,
                Box::new(Expr::Literal(Literal::Int(15))),
            ))],
        ),
    ];

    for (input, expected) in tests {
        let mut parser = Parser::new(Lexer::new(input));
        let program = parser.parse_program();
        let len = program.len();

        if len == 0 {
            panic!("Program has not enought statments. got={}", len);
        }

        if program != expected {
            panic!("got={:?}. expected={:?}", program, expected);
        }
    }
}

#[test]
fn test_infix_expr() {
    let tests: Vec<(&str, Vec<Stmt>)> = vec![
        (
            "5 + 5;",
            vec![Stmt::Expr(Expr::Infix(
                Infix::Plus,
                Box::new(Expr::Literal(Literal::Int(5))),
                Box::new(Expr::Literal(Literal::Int(5))),
            ))],
        ),
        (
            "5 - 5;",
            vec![Stmt::Expr(Expr::Infix(
                Infix::Minus,
                Box::new(Expr::Literal(Literal::Int(5))),
                Box::new(Expr::Literal(Literal::Int(5))),
            ))],
        ),
        (
            "5 * 5;",
            vec![Stmt::Expr(Expr::Infix(
                Infix::Asterisk,
                Box::new(Expr::Literal(Literal::Int(5))),
                Box::new(Expr::Literal(Literal::Int(5))),
            ))],
        ),
        (
            "5 / 5;",
            vec![Stmt::Expr(Expr::Infix(
                Infix::Slash,
                Box::new(Expr::Literal(Literal::Int(5))),
                Box::new(Expr::Literal(Literal::Int(5))),
            ))],
        ),
        (
            "5 < 5;",
            vec![Stmt::Expr(Expr::Infix(
                Infix::Lt,
                Box::new(Expr::Literal(Literal::Int(5))),
                Box::new(Expr::Literal(Literal::Int(5))),
            ))],
        ),
        (
            "5 > 5;",
            vec![Stmt::Expr(Expr::Infix(
                Infix::Gt,
                Box::new(Expr::Literal(Literal::Int(5))),
                Box::new(Expr::Literal(Literal::Int(5))),
            ))],
        ),
        (
            "5 == 5;",
            vec![Stmt::Expr(Expr::Infix(
                Infix::Equal,
                Box::new(Expr::Literal(Literal::Int(5))),
                Box::new(Expr::Literal(Literal::Int(5))),
            ))],
        ),
        (
            "5 != 5;",
            vec![Stmt::Expr(Expr::Infix(
                Infix::NotEqual,
                Box::new(Expr::Literal(Literal::Int(5))),
                Box::new(Expr::Literal(Literal::Int(5))),
            ))],
        ),
    ];

    for (input, expected) in tests {
        let mut parser = Parser::new(Lexer::new(input));
        let program = parser.parse_program();
        let len = program.len();

        if len == 0 {
            panic!("Program has not enought statments. got={}", len);
        }

        if program != expected {
            panic!("got={:?}. expected={:?}", program, expected);
        }
    }
}

#[test]
fn let_statement_with_zero_diagnostics() {
    let mut parser = Parser::new(Lexer::new("let x = 5;"));
    let program = parser.parse_program();
    assert_eq!(parser.errors().len(), 0);
    assert_eq!(
        program,
        vec![Stmt::Let(
            Ident(String::from("x")),
            Expr::Literal(Literal::Int(5))
        )]
    );
}

#[test]
fn precedence_product_binds_tighter_than_sum() {
    let mut parser = Parser::new(Lexer::new("1 + 2 * 3;"));
    let program = parser.parse_program();
    assert_eq!(parser.errors().len(), 0);
    assert_eq!(
        program,
        vec![Stmt::Expr(Expr::Infix(
            Infix::Plus,
            Box::new(Expr::Literal(Literal::Int(1))),
            Box::new(Expr::Infix(
                Infix::Asterisk,
                Box::new(Expr::Literal(Literal::Int(2))),
                Box::new(Expr::Literal(Literal::Int(3))),
            )),
        ))]
    );
}

#[test]
fn precedence_comparison_is_weakest_of_arithmetic() {
    let mut parser = Parser::new(Lexer::new("1 + 2 < 3 * 4;"));
    let program = parser.parse_program();
    assert_eq!(parser.errors().len(), 0);
    assert_eq!(
        program,
        vec![Stmt::Expr(Expr::Infix(
            Infix::Lt,
            Box::new(Expr::Infix(
                Infix::Plus,
                Box::new(Expr::Literal(Literal::Int(1))),
                Box::new(Expr::Literal(Literal::Int(2))),
            )),
            Box::new(Expr::Infix(
                Infix::Asterisk,
                Box::new(Expr::Literal(Literal::Int(3))),
                Box::new(Expr::Literal(Literal::Int(4))),
            )),
        ))]
    );
}

#[test]
fn prefix_binds_tighter_than_infix() {
    let mut parser = Parser::new(Lexer::new("-a * b;"));
    let program = parser.parse_program();
    assert_eq!(parser.errors().len(), 0);
    assert_eq!(
        program,
        vec![Stmt::Expr(Expr::Infix(
            Infix::Asterisk,
            Box::new(Expr::Prefix(
                Prefix::Minus,
                Box::new(Expr::Ident(Ident(String::from("a")))),
            )),
            Box::new(Expr::Ident(Ident(String::from("b")))),
        ))]
    );
}

#[test]
fn equal_precedence_associates_left() {
    let mut parser = Parser::new(Lexer::new("5 - 4 - 3;"));
    let program = parser.parse_program();
    assert_eq!(parser.errors().len(), 0);
    assert_eq!(
        program,
        vec![Stmt::Expr(Expr::Infix(
            Infix::Minus,
            Box::new(Expr::Infix(
                Infix::Minus,
                Box::new(Expr::Literal(Literal::Int(5))),
                Box::new(Expr::Literal(Literal::Int(4))),
            )),
            Box::new(Expr::Literal(Literal::Int(3))),
        ))]
    );
}

#[test]
fn malformed_let_produces_no_statements_and_a_diagnostic() {
    let mut parser = Parser::new(Lexer::new("let = 5;"));
    let program = parser.parse_program();
    assert_eq!(program.len(), 0);
    assert!(parser.errors().len() > 0);
    assert_eq!(parser.errors()[0], "expected an identifier after 'let'");
}

#[test]
fn let_without_assign_produces_a_diagnostic() {
    let mut parser = Parser::new(Lexer::new("let x 5;"));
    let program = parser.parse_program();
    assert_eq!(program.len(), 0);
    assert_eq!(parser.errors().len(), 1);
    assert_eq!(
        parser.errors()[0],
        "expected next token to be Assign, got Int(5) instead"
    );
}

#[test]
fn expected_assign_diagnostic_names_the_seen_identifier() {
    let mut parser = Parser::new(Lexer::new("let x y;"));
    let program = parser.parse_program();
    assert_eq!(program.len(), 0);
    assert_eq!(parser.errors().len(), 1);
    assert_eq!(
        parser.errors()[0],
        "expected next token to be Assign, got Ident(y) instead"
    );
}

#[test]
fn expression_without_prefix_handler_produces_a_diagnostic() {
    let mut parser = Parser::new(Lexer::new("let x = ;"));
    let program = parser.parse_program();
    assert_eq!(program.len(), 0);
    assert_eq!(parser.errors().len(), 1);
    assert_eq!(
        parser.errors()[0],
        "unexpected token at the start of an expression"
    );
}

#[test]
fn expression_statement_without_semicolon() {
    let mut parser = Parser::new(Lexer::new("foobar"));
    let program = parser.parse_program();
    assert_eq!(parser.errors().len(), 0);
    assert_eq!(
        program,
        vec![Stmt::Expr(Expr::Ident(Ident(String::from("foobar"))))]
    );
}

#[test]
fn empty_input_parses_to_empty_program() {
    let mut parser = Parser::new(Lexer::new(""));
    let program = parser.parse_program();
    assert_eq!(program.len(), 0);
    assert_eq!(parser.errors().len(), 0);
}
