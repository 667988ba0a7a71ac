use monkey::ast::{Expression, Statement};
use monkey::lexer;
use monkey::parser::Parser;

fn check_parser_errors(p: &Parser) {
    if p.errors.len() == 0 {
        return;
    }
    let mut output: String = String::new();
    output.push_str(&format!("\n\nparser has {} errors", p.errors.len()));
    for err in p.errors.iter() {
        output.push_str(&format!("\nparser error: {}", err));
    }
    output.push_str("\n\n");
    panic!("{}", output);
}

#[test]
fn test_let_statement() {
    let input = "
let x = 5;
let y = 10;
let foobar = 838383;
";

    let l = lexer::new(input);
    let mut p = Parser::new(l);

    let program = p.parse_program();
    check_parser_errors(&p);

    match program {
        Some(prog) => {
            if prog.statements.len() != 3 {
                assert!(
                    false,
                    "program.statements does not contain {} statements, got={}",
                    3,
                    prog.statements.len()
                );
            }
            let mut i = 0;
            for stmt in prog.statements.iter() {
                assert_eq!(stmt.token_literal(), "let", "tests[{}]", i);
                i += 1;
            }
        },
        None => assert!(false, "parse_program() returns None"),
    }
}

#[test]
fn test_return_statement() {
    let input = "
return 5;
return 10;
return 838383;
";

    let l = lexer::new(input);
    let mut p = Parser::new(l);

    let program = p.parse_program();
    check_parser_errors(&p);

    match program {
        Some(prog) => {
            if prog.statements.len() != 3 {
                assert!(
                    false,
                    "program.statements does not contain {} statements, got={}",
                    3,
                    prog.statements.len()
                );
            }
            let mut i = 0;
            for stmt in prog.statements.iter() {
                assert_eq!(stmt.token_literal(), "return", "tests[{}]", i);
                i += 1;
            }
        },
        None => assert!(false, "parse_program() returns None"),
    }
}

#[test]
fn test_identifier_expression() {
    let input = "foobar;";

    let l = lexer::new(input);
    let mut p = Parser::new(l);

    let program = p.parse_program();
    check_parser_errors(&p);

    match program {
        Some(prog) => {
            if prog.statements.len() != 1 {
                assert!(
                    false,
                    "program.statements does not contain {} statements, got={}",
                    1,
                    prog.statements.len()
                );
            }
            assert_eq!(prog.statements[0].token_literal(), "foobar", "tests[{}]", 0);
        },
        None => assert!(false, "parse_program() returns None"),
    }
}

#[test]
fn test_integer_literal_expression() {
    let input = "5;";

    let l = lexer::new(input);
    let mut p = Parser::new(l);

    let program = p.parse_program();
    check_parser_errors(&p);

    match program {
        Some(prog) => {
            if prog.statements.len() != 1 {
                assert!(
                    false,
                    "program.statements does not contain {} statements, got={}",
                    1,
                    prog.statements.len()
                );
            }
            assert_eq!(prog.statements[0].token_literal(), "5", "tests[{}]", 0);
        },
        None => assert!(false, "parse_program() returns None"),
    }
}

#[test]
fn test_parsing_prefix_expressions() {
    let input = "
!5;
-5";

    let l = lexer::new(input);
    let mut p = Parser::new(l);

    let program = p.parse_program();
    check_parser_errors(&p);

    match program {
        Some(prog) => {
            if prog.statements.len() != 2 {
                assert!(
                    false,
                    "program.statements does not contain {} statements, got={}",
                    2,
                    prog.statements.len()
                );
            }
            assert_eq!(prog.statements[0].to_string(), "(!5);", "tests[{}]", 0);
            assert_eq!(prog.statements[1].to_string(), "(-5);", "tests[{}]", 1);
        },
        None => assert!(false, "parse_program() returns None"),
    }
}

#[test]
fn test_parsing_infix_expressions() {
    let infix_tests: [String; 8] = [
        String::from("5 + 5;"),
        String::from("5 - 5;"),
        String::from("5 * 5;"),
        String::from("5 / 5;"),
        String::from("5 > 5;"),
        String::from("5 < 5;"),
        String::from("5 == 5;"),
        String::from("5 != 5;"),
    ];

    let mut i = 0;
    for input in infix_tests.iter() {
        let l = lexer::new(input);
        let mut p = Parser::new(l);

        let program = p.parse_program();
        check_parser_errors(&p);

        match program {
            Some(prog) => {
                if prog.statements.len() != 1 {
                    assert!(
                        false,
                        "program.statements does not contain {} statements, got={}",
                        1,
                        prog.statements.len()
                    );
                }
                assert_eq!(
                    prog.statements[0].to_string(),
                    format!("({});", &(*input)[..((*input).len() - 1)]),
                    "tests[{}]",
                    i
                );
            },
            None => assert!(false, "parse_program() returns None"),
        }

        i += 1;
    }
}

/// Parses one source text, demands exactly one expression statement, and
/// returns the rendered expression.
fn first_expression_text(input: &str) -> String {
    let l = lexer::new(input);
    let mut p = Parser::new(l);
    let program = p.parse_program().unwrap();
    check_parser_errors(&p);
    assert_eq!(program.statements.len(), 1);
    match &program.statements[0] {
        Statement::Expr(es) => match &es.expression {
            Some(e) => e.to_string(),
            None => panic!("statement has no expression"),
        },
        _ => panic!("not an expression statement"),
    }
}

#[test]
fn operator_precedence_grouping() {
    assert_eq!(first_expression_text("-a * b"), "((-a) * b)");
    assert_eq!(first_expression_text("a + b + c"), "((a + b) + c)");
    assert_eq!(first_expression_text("a + b * c"), "(a + (b * c))");
    assert_eq!(first_expression_text("!-a"), "(!(-a))");
}

#[test]
fn more_precedence_groupings() {
    assert_eq!(first_expression_text("a * b / c"), "((a * b) / c)");
    assert_eq!(first_expression_text("a + b / c"), "(a + (b / c))");
    assert_eq!(first_expression_text("5 < 4 != 3 > 4"), "((5 < 4) != (3 > 4))");
    assert_eq!(first_expression_text("3 + 4 * 5 == 3 * 1 + 4 * 5"), "((3 + (4 * 5)) == ((3 * 1) + (4 * 5)))");
}

#[test]
fn missing_assign_reports_one_structural_mismatch() {
    let input = "let x 5;";
    let l = lexer::new(input);
    let mut p = Parser::new(l);
    let program = p.parse_program();
    assert!(program.is_some());
    assert_eq!(p.errors.len(), 1);
    assert_eq!(p.errors[0], "expected next token to be =, got INT instead");
}

#[test]
fn empty_source_parses_to_empty_program_without_errors() {
    let l = lexer::new("");
    let mut p = Parser::new(l);
    let program = p.parse_program().unwrap();
    assert_eq!(program.statements.len(), 0);
    assert_eq!(p.errors.len(), 0);
}

#[test]
fn integer_literal_value_is_the_digit_strings_value() {
    let l = lexer::new("9223372036854775807;");
    let mut p = Parser::new(l);
    let program = p.parse_program().unwrap();
    check_parser_errors(&p);
    assert_eq!(program.statements.len(), 1);
    match &program.statements[0] {
        Statement::Expr(es) => match &es.expression {
            Some(Expression::Int(il)) => assert_eq!(il.value, 9223372036854775807i64),
            _ => panic!("not an integer literal"),
        },
        _ => panic!("not an expression statement"),
    }
}

#[test]
fn out_of_range_integer_literal_is_a_conversion_error() {
    let l = lexer::new("9223372036854775808;");
    let mut p = Parser::new(l);
    let program = p.parse_program().unwrap();
    assert_eq!(program.statements.len(), 1);
    assert!(p.errors.len() >= 1);
    assert_eq!(p.errors[0], "could not parse 9223372036854775808 as integer");
    match &program.statements[0] {
        Statement::Expr(es) => assert!(es.expression.is_none()),
        _ => panic!("not an expression statement"),
    }
}

#[test]
fn expression_position_without_value_token_is_reported() {
    let l = lexer::new("+;");
    let mut p = Parser::new(l);
    let program = p.parse_program();
    assert!(program.is_some());
    assert_eq!(p.errors.len(), 1);
    assert_eq!(p.errors[0], "no prefix parse function for + found");
}

#[test]
fn errors_are_collected_across_statements_in_order() {
    let input = "let x 5; let = 7;";
    let l = lexer::new(input);
    let mut p = Parser::new(l);
    let program = p.parse_program();
    assert!(program.is_some());
    assert!(p.errors.len() >= 2);
    assert_eq!(p.errors[0], "expected next token to be =, got INT instead");
}

#[test]
fn parse_render_parse_is_stable_for_simple_statements() {
    for input in ["let x = 5;", "let foo = bar;", "return 42;", "return myVar;"] {
        let l = lexer::new(input);
        let mut p = Parser::new(l);
        let program = p.parse_program().unwrap();
        check_parser_errors(&p);
        assert_eq!(program.statements.len(), 1);
        let rendered = program.statements[0].to_string();

        let l2 = lexer::new(&rendered);
        let mut p2 = Parser::new(l2);
        let program2 = p2.parse_program().unwrap();
        check_parser_errors(&p2);
        assert_eq!(program2.statements.len(), 1);
        assert_eq!(program2.statements[0].to_string(), rendered);
        assert_eq!(program2.statements[0].token_literal(), program.statements[0].token_literal());
    }
}
