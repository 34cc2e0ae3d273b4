use bzr::ast::expr::int_expr::IntExpr;
use bzr::ast::expression::Expression;
use bzr::ast::identifier::Identifier;
use bzr::ast::program::Program;
use bzr::ast::statement::Statement;
use bzr::ast::stmt::let_stmt::Let;
use bzr::ast::types::Type;
use bzr::lexer::Lexer;
use bzr::parser::Parser;

fn parse(source: &str) -> Program {
    let lexer = Lexer::new(source.to_string(), "foo.bzr".to_string());
    let parser = Parser::new(lexer);
    parser.parse_program()
}

#[test]
fn test_parse_let_int_type() {
    let program = parse("let a int = 10;");
    assert!(program.errors.len() <= 0);
    assert!(program.statements.len() > 0);
}

#[test]
fn test_parse_var_int_type() {
    let program = parse("var a int = 10;");
    assert!(program.errors.len() <= 0);
    assert!(program.statements.len() > 0);
}

#[test]
fn test_parse_let_negative_int_type() {
    let program = parse("let a int = -10;");
    assert!(program.errors.len() <= 0);
    assert!(program.statements.len() > 0);
}

#[test]
fn test_parse_var_negative_int_type() {
    let program = parse("var a int = -10;");
    assert!(program.errors.len() <= 0);
    assert!(program.statements.len() > 0);
}

#[test]
fn test_parse_var_int_type_erros() {
    let program = parse("var a int = \"texto\"");
    assert!(program.errors.len() > 0);
    assert!(program.statements.len() <= 0);
}

#[test]
fn test_parse_let_int_type_erros() {
    let program = parse("var a int = \"10\"");
    assert!(program.errors.len() > 0);
    assert!(program.statements.len() <= 0);
}

#[test]
fn test_parse_var_int_letter_type_erros() {
    let program = parse("var a int = 10a");
    assert!(program.errors.len() > 0);
    assert!(program.statements.len() <= 0);
}

#[test]
fn test_parse_let_int_letter_type_erros() {
    let program = parse("var a int = 10a");
    assert!(program.errors.len() > 0);
    assert!(program.statements.len() <= 0);
}

#[test]
fn test_parse_str_int_type() {
    let program = parse("let a str = \"10\";");
    assert!(program.errors.len() <= 0);
    assert!(program.statements.len() > 0);
}

#[test]
fn test_parse_var_str_type() {
    let program = parse("var a int = 10;");
    assert!(program.errors.len() <= 0);
    assert!(program.statements.len() > 0);
}

#[test]
fn test_parse_var_str_type_erros() {
    let program = parse("var a str = 10");
    assert!(program.errors.len() > 0);
    assert!(program.statements.len() <= 0);
}

#[test]
fn test_parse_let_str_type_erros() {
    let program = parse("var a int = \"10\"");
    assert!(program.errors.len() > 0);
    assert!(program.statements.len() <= 0);
}

#[test]
fn test_parse_bool_int_type() {
    let program = parse("let a str = \"10\";");
    assert!(program.errors.len() <= 0);
    assert!(program.statements.len() > 0);
}

#[test]
fn test_parse_var_bool_type() {
    let program = parse("var a bool = false;");
    assert!(program.errors.len() <= 0);
    assert!(program.statements.len() > 0);
}

#[test]
fn test_parse_var_bool_type_erros() {
    let program = parse("var a bool = 10");
    assert!(program.errors.len() > 0);
    assert!(program.statements.len() <= 0);
}

#[test]
fn test_parse_let_bool_type_erros() {
    let program = parse("var a bool = \"false\"");
    assert!(program.errors.len() > 0);
    assert!(program.statements.len() <= 0);
}

#[test]
fn test_parse_return_type() {
    let program = parse("ret false;");
    assert!(program.errors.len() <= 0);
    assert!(program.statements.len() > 0);
}

#[test]
fn test_program_to_string() {
    let typ = Type::Int;
    let identifier = Identifier::new("my_var".to_string());
    let expr = Expression::Int(IntExpr::new(10));
    let statements: Vec<Statement> = vec![Statement::Let(Let::new(typ, identifier, expr))];
    let program = Program::new(statements, vec![]);
    let program_str = program.to_string();
    assert_eq!("let my_var int = 10;", program_str);
}

#[test]
fn test_parse_precedence() {
    let source = "-a * b;
    !-a;
    a + b + c;
    a + b - c;
    a * b * c;
    a * b / c;
    a + b / c;
    a + b * c + d / e - f;
    3 + 4; -5 * 5;
    5 > 4 == 3 < 4;
    5 < 4 != 3 > 4;
    3 + 4 * 5 == 3 * 1 + 4 * 5;
    3 + 4 * 5 == 3 * 1 + 4 * 5;
    10 >= 10;
    20 <= 50;
    10 + 2 * 3
    3 > 5 == false
    3 < 5 == true
    true == true
    false == false
    false != true
    false == true
    !(true == true)"
        .to_string();
    let expected = "((-a) * b)
(!(-a))
((a + b) + c)
((a + b) - c)
((a * b) * c)
((a * b) / c)
(a + (b / c))
(((a + (b * c)) + (d / e)) - f)
(3 + 4)
(-5 * 5)
((5 > 4) == (3 < 4))
((5 < 4) != (3 > 4))
((3 + (4 * 5)) == ((3 * 1) + (4 * 5)))
((3 + (4 * 5)) == ((3 * 1) + (4 * 5)))
(10 >= 10)
(20 <= 50)
(10 + (2 * 3))
((3 > 5) == false)
((3 < 5) == true)
(true == true)
(false == false)
(false != true)
(false == true)
(!(true == true))
"
    .to_string();

    let mut output = String::new();
    let program = parse(&source);
    for stmt in program.statements.iter() {
        output.push_str(&stmt.to_string());
        output.push_str("\n");
    }
    assert_eq!(&expected, &output);
}

#[test]
fn test_if_expression() {
    let program = parse("if x < y { x }");
    assert_eq!(1, program.statements.len());
    let exists = match program.statements.first().unwrap() {
        Statement::Expression(expr_stmt) => match expr_stmt.expression.as_ref().unwrap() {
            Expression::If(if_expr) => if_expr.consequence.is_some(),
            other => panic!("not a conditional: {:?}", other),
        },
        other => panic!("not an expression statement: {:?}", other),
    };
    assert!(exists);
}

#[test]
fn test_if_else_expression() {
    let program = parse("if x < y { x } else { y }");
    assert_eq!(1, program.statements.len());
    let exists = match program.statements.first().unwrap() {
        Statement::Expression(expr_stmt) => match expr_stmt.expression.as_ref().unwrap() {
            Expression::If(if_expr) => if_expr.alternative.is_some(),
            other => panic!("not a conditional: {:?}", other),
        },
        other => panic!("not an expression statement: {:?}", other),
    };
    assert!(exists);
}

#[test]
fn test_if_else_if_expression() {
    let program = parse("if x < y { x } else if a > b { a } else { y }");
    assert_eq!(1, program.statements.len());
}

#[test]
fn test_function_literal_parsing() {
    let program = parse("fn sum(a int, b int) { a + b; }");
    assert_eq!(1, program.statements.len());
}

#[test]
fn test_function_literal_parsing_with_type() {
    let program = parse("fn sum(a int, b int) int { a + b; }");
    assert_eq!(1, program.statements.len());
}

#[test]
fn test_function_call_with_args_parsing() {
    let program = parse("sum (1, 2 * 3);");
    assert_eq!(1, program.statements.len());
}

#[test]
fn test_function_call_without_args_parsing() {
    let program = parse("eqo ();");
    assert_eq!(1, program.statements.len());
}

#[test]
fn test_if_while_expression() {
    let program = parse("let a array = [1,2,3]");
    assert_eq!(1, program.statements.len());
    assert_eq!(0, program.errors.len());
}
