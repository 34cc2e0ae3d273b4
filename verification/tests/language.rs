use bzr::ast::expr::infix_expr::InfixExpr;
use bzr::ast::expr::int_expr::IntExpr;
use bzr::ast::expr::prefix_expr::PrefixExpr;
use bzr::ast::expression::Expression;
use bzr::ast::identifier::Identifier;
use bzr::ast::node::Node;
use bzr::ast::stmt::block_stmt::BlockStatement;
use bzr::object::function::Function;
use bzr::object::ret::Ret;
use bzr::ast::program::Program;
use bzr::ast::statement::Statement;
use bzr::evaluator::built_in_fns;
use bzr::evaluator::Evaluator;
use bzr::lexer::token::{Token, TokenKind};
use bzr::lexer::Lexer;
use bzr::object::array::Array;
use bzr::object::boolean::Boolean;
use bzr::object::environment::{Environment, Stream};
use bzr::object::error::Error;
use bzr::object::integer::Integer;
use bzr::object::null::Null;
use bzr::object::string::Str;
use bzr::object::Object;
use bzr::text;

fn parse(source: &str) -> Program {
    bzr::parser::parse(source.to_string(), "foo.bzr".to_string())
}

fn run(source: &str) -> (Option<Object>, Environment) {
    let program = parse(source);
    assert!(program.errors.is_empty(), "diagnostics: {:?}", program.errors);
    let node = Node::Program(program);
    let mut env = Environment::default();
    let value = Evaluator::default().eval(Some(&node), &mut env);
    (value, env)
}

fn eval(source: &str) -> Object {
    run(source).0.unwrap()
}

fn text_of(value: Object) -> String {
    value.to_string()
}

fn kinds(source: &str) -> Vec<TokenKind> {
    let mut lexer = Lexer::new(source.to_string(), "foo.bzr".to_string());
    lexer.tokens().iter().map(|t| t.kind()).collect()
}

fn integer(v: i64) -> Object {
    Object::Integer(Integer::new(v))
}

fn string(s: &str) -> Object {
    Object::Str(Str::new(s.to_string()))
}

fn error_message(value: Object) -> String {
    match value {
        Object::Error(e) => e.val,
        other => panic!("not an error: {:?}", other),
    }
}

#[test]
fn typed_let_parses_to_one_statement() {
    let program = parse("let a int = 10;");
    assert_eq!(program.errors.len(), 0);
    assert_eq!(program.statements.len(), 1);
}

#[test]
fn mismatched_initializer_is_a_diagnostic() {
    let program = parse("var a int = \"texto\"");
    assert!(program.errors.len() >= 1);
    assert_eq!(program.statements.len(), 0);
    assert_eq!(program.errors[0], "expected int, got str");
}

#[test]
fn operators_group_by_precedence() {
    assert_eq!(parse("-a * b;").to_string(), "((-a) * b)");
    assert_eq!(
        parse("a + b * c + d / e - f;").to_string(),
        "(((a + (b * c)) + (d / e)) - f)"
    );
}

#[test]
fn arithmetic_evaluates() {
    assert_eq!(text_of(eval("10 + 10")), "20");
    assert_eq!(text_of(eval("2 * (5 + 10)")), "30");
    assert_eq!(text_of(eval("7 / 2")), "3");
    assert_eq!(text_of(eval("-7 / 2")), "-3");
    assert_eq!(text_of(eval("7 / -2")), "-3");
    assert_eq!(text_of(eval("-(5)")), "-5");
}

#[test]
fn conditional_takes_the_alternative() {
    match eval("if 1 > 2 { 10 } else { 100 }") {
        Object::Integer(i) => assert_eq!(i.val, 100),
        other => panic!("not an integer: {:?}", other),
    }
}

#[test]
fn factorial_recurses() {
    let source = "fn factorial(x int) int { if x <= 1 { ret 1; } else { ret x * factorial(x - 1); } } factorial(4);";
    match eval(source) {
        Object::Integer(i) => assert_eq!(i.val, 24),
        other => panic!("not an integer: {:?}", other),
    }
}

#[test]
fn strings_concatenate() {
    match eval("\"Paulo\" + \" \" + \"Gabriel\"") {
        Object::Str(s) => assert_eq!(s.val, "Paulo Gabriel"),
        other => panic!("not a string: {:?}", other),
    }
}

#[test]
fn arrays_index() {
    match eval("let a = [1, 2 * 2, 3 + 3]; a[1]") {
        Object::Integer(i) => assert_eq!(i.val, 4),
        other => panic!("not an integer: {:?}", other),
    }
    assert_eq!(text_of(eval("let a = [1, 2, 3]; a[3]")), "null");
    assert_eq!(text_of(eval("let a = [1, 2, 3]; a[-1]")), "null");
    assert_eq!(text_of(eval("\"abc\"[1]")), "b");
    assert_eq!(text_of(eval("\"abc\"[3]")), "null");
    assert_eq!(
        error_message(eval("(5)[1]")),
        "index operation not suported: int"
    );
    assert_eq!(
        error_message(eval("[1][true]")),
        "index operation not suported: array"
    );
}

#[test]
fn mismatched_operands_are_an_error() {
    assert_eq!(
        error_message(eval("5 + true;")),
        "incompatible types bool and int"
    );
}

#[test]
fn unknown_names_are_an_error() {
    assert_eq!(error_message(eval("foobar")), "unknown word 'foobar'");
}

fn reprinted(source: &str) -> String {
    let program = parse(source);
    assert!(program.errors.is_empty(), "diagnostics: {:?}", program.errors);
    program.to_string()
}

#[test]
fn printing_and_parsing_again_gives_the_same_tree() {
    let sources = [
        "let a int = 10;",
        "let a = 5; var b = a + 2; a = b * 3; a",
        "-a * b; !-a; - 5; a - -5; !(true == false)",
        "let s str = \" two  words \"; s + \"x\"",
        "let a array = [1, 2 * 2, 3 + 3]; a[1]; (a[0])(1); f(x)[2]",
        "if x < y { x } else if a > b { a; b } else { y }",
        "while i < 10 { i = i + 1; }",
        "fn factorial(x int) int { if x <= 1 { ret 1; } else { ret x * factorial(x - 1); } } factorial(4);",
        "fn f(a, b bool, c array) { } f(1, true, [])",
        "ret 5; 007; -0",
        "let f = fn g(x str) str { ret x; }; g(\"a\")",
    ];
    for source in sources {
        let first = reprinted(source);
        let again = parse(&first);
        assert!(again.errors.is_empty(), "{}: {:?}", first, again.errors);
        let second = again.to_string();
        assert_eq!(first, second, "source: {}", source);
        let third = parse(&second);
        assert_eq!(format!("{:?}", again.statements), format!("{:?}", third.statements));
        assert_eq!(again.statements.len(), parse(source).statements.len());
    }
}

#[test]
fn statements_print_as_source() {
    assert_eq!(reprinted("let a = 5"), "let a int = 5;");
    assert_eq!(reprinted("let a = b"), "let a = b;");
    assert_eq!(reprinted("ret 1 + 2"), "ret (1 + 2);");
    assert_eq!(reprinted("x; y"), "x; y");
    assert_eq!(reprinted("\"a b\""), "\"a b\"");
    assert_eq!(reprinted("[1,2]"), "[1, 2]");
    assert_eq!(reprinted("f(1,2)"), "f(1, 2)");
    assert_eq!(reprinted("a[1]"), "(a[1])");
    assert_eq!(reprinted("- 5"), "(- 5)");
    assert_eq!(reprinted("if a { } else { b }"), "if a { } else { b }");
    assert_eq!(reprinted("while a { b; c }"), "while a { b; c }");
    assert_eq!(
        reprinted("fn f(a int, b) bool { ret a; }"),
        "fn f(a int, b) bool { ret a; }"
    );
    assert_eq!(reprinted("a = 1"), "(a = 1)");
}

#[test]
fn lexer_reads_operators_by_lookahead() {
    assert_eq!(
        kinds("= == ! != < <= > >= && || + - * /"),
        vec![TokenKind::Assign, TokenKind::Eq, TokenKind::Bang, TokenKind::Diff, TokenKind::Lt, TokenKind::Lte, TokenKind::Gt, TokenKind::Gte, TokenKind::And, TokenKind::Or, TokenKind::Plus, TokenKind::Minus, TokenKind::Asterisk, TokenKind::Slash, TokenKind::EOF]
    );
    assert_eq!(kinds("a =5"), vec![TokenKind::Ident, TokenKind::Assign, TokenKind::Number, TokenKind::EOF]);
    assert_eq!(kinds("a =(b)"), vec![TokenKind::Ident, TokenKind::Assign, TokenKind::LParen, TokenKind::Ident, TokenKind::RParen, TokenKind::EOF]);
    assert_eq!(kinds("& |"), vec![TokenKind::Illegal, TokenKind::Illegal, TokenKind::EOF]);
    assert_eq!(kinds("="), vec![TokenKind::Illegal, TokenKind::EOF]);
}

#[test]
fn lexer_knows_the_keywords() {
    assert_eq!(
        kinds("if else fn let var ret true false int str bool while array iff"),
        vec![TokenKind::If, TokenKind::Else, TokenKind::Function, TokenKind::Let, TokenKind::Var, TokenKind::Return, TokenKind::True, TokenKind::False, TokenKind::Int, TokenKind::Str, TokenKind::Bool, TokenKind::While, TokenKind::Array, TokenKind::Ident, TokenKind::EOF]
    );
}

#[test]
fn lexer_checks_what_follows_a_number() {
    let mut lexer = Lexer::new("10a 7".to_string(), "foo.bzr".to_string());
    let first = lexer.next_token();
    assert_eq!(first.kind(), TokenKind::Illegal);
    assert_eq!(first.text(), &Some("10".to_string()));
    let second = lexer.next_token();
    assert_eq!(second.kind(), TokenKind::Number);
    assert_eq!(second.text(), &Some("7".to_string()));
    assert_eq!(lexer.next_token().kind(), TokenKind::EOF);

    assert_eq!(kinds("1+2"), vec![TokenKind::Number, TokenKind::Plus, TokenKind::Number, TokenKind::EOF]);
    assert_eq!(kinds("[1,2]"), vec![TokenKind::LSqBracket, TokenKind::Number, TokenKind::Comma, TokenKind::Number, TokenKind::RSqBracket, TokenKind::EOF]);
    assert_eq!(kinds("1}"), vec![TokenKind::Illegal, TokenKind::EOF]);
    assert_eq!(kinds("-12"), vec![TokenKind::Number, TokenKind::EOF]);
    assert_eq!(kinds("-12a"), vec![TokenKind::Illegal, TokenKind::EOF]);
    assert_eq!(kinds("a - 1"), vec![TokenKind::Ident, TokenKind::Minus, TokenKind::Number, TokenKind::EOF]);
}

#[test]
fn lexer_reads_strings_up_to_the_quote() {
    let mut lexer = Lexer::new("\"\" \"a\nb\" \"open".to_string(), "foo.bzr".to_string());
    let empty = lexer.next_token();
    assert_eq!(empty.kind(), TokenKind::String);
    assert_eq!(empty.text(), &Some(String::new()));
    let lines = lexer.next_token();
    assert_eq!(lines.kind(), TokenKind::String);
    assert_eq!(lines.text(), &Some("a\nb".to_string()));
    let open = lexer.next_token();
    assert_eq!(open.kind(), TokenKind::Illegal);
    assert_eq!(open.text(), &Some("open".to_string()));
    assert_eq!(open.location().as_ref().unwrap().line, 2);
    assert_eq!(open.location().as_ref().unwrap().position, 3);
    assert_eq!(lexer.next_token().kind(), TokenKind::EOF);
    assert_eq!(lexer.next_token().kind(), TokenKind::EOF);
}

#[test]
fn lexer_counts_lines_and_offsets() {
    let mut lexer = Lexer::new("a\n  b\n\nc".to_string(), "file.bzr".to_string());
    let tokens = lexer.tokens();
    let places: Vec<(usize, usize)> = tokens
        .iter()
        .map(|t| {
            let l = t.location().as_ref().unwrap();
            (l.line, l.position)
        })
        .collect();
    assert_eq!(places, vec![(1, 0), (2, 2), (4, 0), (4, 1)]);
    assert_eq!(tokens[1].location().as_ref().unwrap().filename, "file.bzr");
}

#[test]
fn tokens_print_for_diagnostics() {
    let mut lexer = Lexer::new("  abc ==".to_string(), "f.bzr".to_string());
    assert_eq!(lexer.next_token().to_string(), "'identifier (abc)' in f.bzr:1:2");
    assert_eq!(lexer.next_token().to_string(), "'==' in f.bzr:1:6");
    assert_eq!(Token::Let(None).to_string(), "let");
    assert_eq!(Token::Plus(None).literal(), "+");
    assert_eq!(Token::Let(None).literal(), "unknown");
    assert!(Token::get_keyword_token("while", None).is_ok());
    assert_eq!(Token::get_keyword_token("whil", None).unwrap_err(), "Not a keyword");
}

#[test]
fn diagnostics_name_what_was_expected() {
    // The parser resumes one token behind the failure, on the `=`.
    let program = parse("let = 5;");
    assert_eq!(program.statements.len(), 1);
    assert_eq!(
        program.errors,
        vec![
            "expected identifier, got '=' in foo.bzr:1:4".to_string(),
            "error expected a prefix, got '=' in foo.bzr:1:4".to_string()
        ]
    );
    let program = parse("(1 + 2");
    assert_eq!(program.errors, vec!["expected ), got 'EOF' in foo.bzr:1:6".to_string()]);
    let program = parse("let a int = ;");
    assert_eq!(
        program.errors[0],
        "error on parse expression 'let' in foo.bzr:1:0"
    );
    let program = parse("let a = ;");
    assert_eq!(
        program.errors[0],
        "error on parse expression 'let' in foo.bzr:1:0... error expected a prefix, got ';' in foo.bzr:1:8"
    );
    let program = parse("99999999999999999999");
    assert_eq!(
        program.errors,
        vec!["fail on parse value: 'number (99999999999999999999)' in foo.bzr:1:0".to_string()]
    );
}

#[test]
fn parsing_goes_on_after_a_diagnostic() {
    let program = parse("let a int = true let b = 2; ) let c = 3;");
    assert_eq!(
        program.errors,
        vec![
            "expected int, got bool".to_string(),
            "error expected a prefix, got ')' in foo.bzr:1:28".to_string()
        ]
    );
    assert_eq!(program.statements.len(), 2);
    assert_eq!(program.to_string(), "let b int = 2; let c int = 3;");
}

#[test]
fn blocks_record_their_diagnostics() {
    let program = parse("if a { let b int = true c }");
    assert_eq!(program.errors, vec!["expected int, got bool".to_string()]);
    assert_eq!(program.statements.len(), 1);
    assert_eq!(program.to_string(), "if a { c }");
}

#[test]
fn expressions_carry_their_type() {
    let types: Vec<String> = parse("1; true; \"s\"; [1]; a; -a; !a; a < b; a + b; f(x); a[0]; if a { }; fn f() { }")
        .statements
        .iter()
        .map(|s| match s {
            Statement::Expression(x) => x.expression.as_ref().unwrap().get_type().to_string(),
            other => panic!("not an expression statement: {:?}", other),
        })
        .collect();
    assert_eq!(
        types,
        vec![
            "int", "bool", "str", "array", "unk", "int", "unk", "bool", "int", "unk", "Index",
            "expression", "function"
        ]
    );
}

#[test]
fn names_are_written_outwards_and_read_inwards() {
    let mut env = Environment::default();
    env.set("x".to_string(), integer(1));
    let mut inner = Environment::new(Some(env));
    assert_eq!(inner.current(), 1);
    assert_eq!(inner.scope_count(), 2);
    // A name of an enclosing scope is changed there.
    inner.set("x".to_string(), integer(2));
    // A new name is bound in the scope at hand.
    inner.set("y".to_string(), integer(3));
    assert_eq!(text_of(inner.get("x".to_string()).unwrap()), "2");
    assert_eq!(text_of(inner.get_in(0, "x").unwrap()), "2");
    assert_eq!(text_of(inner.get("y".to_string()).unwrap()), "3");
    assert!(inner.get_in(0, "y").is_none());
    assert!(inner.exists_in_outer(1, "x"));
    assert!(!inner.exists_in_outer(1, "y"));
    assert!(!inner.exists_in_outer(0, "x"));
    assert!(inner.get("z".to_string()).is_none());
}

#[test]
fn let_in_a_block_changes_the_outer_variable() {
    assert_eq!(text_of(eval("let x = 1; if true { let x = 2; } x")), "2");
    assert_eq!(text_of(eval("let x = 1; if true { let y = 2; } y")), "unknown word 'y'");
    assert_eq!(text_of(eval("let x = 1; fn f(x) { x } f(5); x")), "5");
}

#[test]
fn functions_close_over_their_scope() {
    let source = "fn make() { let n = 10; fn add(x) { x + n } } let add = make(); let n = 1; add(5)";
    assert_eq!(text_of(eval(source)), "15");
    assert_eq!(text_of(eval("fn f(a, b) { a } f(1)")), "1");
    assert_eq!(error_message(eval("fn f(a) { a } f(1, 2)")), "wrong number of arguments");
    assert_eq!(error_message(eval("let a = 5; a(1)")), "not a function int");
}

#[test]
fn loops_run_until_the_condition_fails() {
    assert_eq!(text_of(eval("let i = 0; let s = 0; while i < 5 { i = i + 1; s = s + i; } s")), "15");
    assert_eq!(text_of(eval("while false { 1 }")), "null");
    assert_eq!(text_of(eval("let i = 0; while i < 3 { i = i + 1; }")), "3");
    assert_eq!(error_message(eval("while foo { 1 }")), "unknown word 'foo'");
    assert_eq!(error_message(eval("while 1 { 1 }; 5 + true")), "incompatible types bool and int");
}

#[test]
fn assignment_writes_the_name_on_the_left() {
    assert_eq!(text_of(eval("let a = 1; a = a + 4; a")), "5");
    assert_eq!(text_of(eval("let a = 1; a = 7")), "7");
    assert_eq!(error_message(eval("let a = [1]; a[0] = 2")), "invalid assignment target (a[0])");
}

#[test]
fn errors_end_the_expression_they_occur_in() {
    assert_eq!(error_message(eval("foo + bar")), "unknown word 'bar'");
    assert_eq!(error_message(eval("-foo")), "unknown word 'foo'");
    assert_eq!(error_message(eval("if foo { 1 }")), "unknown word 'foo'");
    assert_eq!(error_message(eval("len(foo)")), "unknown word 'foo'");
    assert_eq!(error_message(eval("[1, foo, 3]")), "unknown word 'foo'");
    assert_eq!(error_message(eval("foo[1]")), "unknown word 'foo'");
    assert_eq!(error_message(eval("[1][foo]")), "unknown word 'foo'");
    assert_eq!(error_message(eval("let a = foo; 1; a")), "unknown word 'a'");
    assert_eq!(error_message(eval("ret foo;")), "unknown word 'foo'");
    assert_eq!(error_message(eval("foo(1)")), "unknown word 'foo'");
}

#[test]
fn integers_stay_in_range_or_fail() {
    assert_eq!(error_message(eval("9223372036854775807 + 1")), "integer overflow");
    assert_eq!(error_message(eval("-9223372036854775808 - 1")), "integer overflow");
    assert_eq!(error_message(eval("9223372036854775807 * 2")), "integer overflow");
    assert_eq!(error_message(eval("-9223372036854775808 / -1")), "integer overflow");
    assert_eq!(error_message(eval("-(-9223372036854775808)")), "integer overflow");
    assert_eq!(error_message(eval("1 / 0")), "division by zero");
    assert_eq!(text_of(eval("9223372036854775807 - 1")), "9223372036854775806");
    assert_eq!(error_message(eval("1 && 2")), "unknown operator &&");
}

#[test]
fn operators_reject_what_they_do_not_know() {
    assert_eq!(error_message(eval("\"a\" - \"b\"")), "unsupported operation a - b");
    assert_eq!(error_message(eval("[1] + [2]")), "unsupported operation [1] + [2]");
    assert_eq!(error_message(eval("!5")), "invalid expression '!5'");
    assert_eq!(text_of(eval("true > false")), "true");
    assert_eq!(text_of(eval("true < false")), "false");
    assert_eq!(text_of(eval("true >= true")), "true");
    assert_eq!(text_of(eval("false <= true")), "true");
}

#[test]
fn a_sequence_without_a_value_is_an_error() {
    let node = Node::Program(parse(""));
    let mut env = Environment::default();
    let value = Evaluator::default().eval(Some(&node), &mut env).unwrap();
    assert_eq!(error_message(value), "no value");
    assert_eq!(error_message(eval("if true { }")), "no value");
    assert!(Evaluator::default().eval(None, &mut env).is_none());
}

#[test]
fn handmade_values_meet_the_rare_errors() {
    let evaluator = Evaluator::default();
    let mut env = Environment::default();
    // A function whose scope is not in the environment.
    let stray = Object::Function(Function::new(
        vec![],
        Identifier::new("f".to_string()),
        Some(BlockStatement::new()),
        99,
    ));
    env.set("f".to_string(), stray);
    assert_eq!(
        error_message(evaluator.run(&parse("f()"), &mut env).unwrap()),
        "function scope does not exist"
    );
    // A wrapped value on the right of an operator.
    env.set("r".to_string(), Object::Ret(Ret::new(integer(2))));
    assert_eq!(
        error_message(evaluator.run(&parse("1 + r"), &mut env).unwrap()),
        "miss right operator 1"
    );
    assert_eq!(
        error_message(evaluator.run(&parse("r + 1"), &mut env).unwrap()),
        "unsupported operation 2 + 1"
    );
    // A wrapped array that is indexed, and a wrapped index.
    let wrapped = Object::Ret(Ret::new(Object::Array(Array::new(vec![integer(7)]))));
    env.set("a".to_string(), wrapped);
    assert_eq!(
        error_message(evaluator.run(&parse("a[0]"), &mut env).unwrap()),
        "index operation not suported: array[0]"
    );
    assert_eq!(
        error_message(evaluator.run(&parse("[7][r]"), &mut env).unwrap()),
        "index operation not suported: array"
    );
    // A prefix operator that the language does not have.
    let odd = Node::Expression(Expression::Prefix(PrefixExpr {
        operator: "~".to_string(),
        right: Some(Box::new(Expression::Int(IntExpr::new(5)))),
        typ: None,
    }));
    assert_eq!(
        error_message(evaluator.eval(Some(&odd), &mut env).unwrap()),
        "invalid expression 5"
    );
    // An operator without its operand has no value.
    let bare = Node::Expression(Expression::Prefix(PrefixExpr::new("-".to_string())));
    assert!(evaluator.eval(Some(&bare), &mut env).is_none());
    let bare = Node::Expression(Expression::Infix(InfixExpr::new("+".to_string())));
    assert!(evaluator.eval(Some(&bare), &mut env).is_none());
    // A condition that is no boolean has no value.
    assert_eq!(error_message(evaluator.run(&parse("if 1 { 2 }"), &mut env).unwrap()), "no value");
}

#[test]
fn long_sequences_need_no_deep_stack() {
    let n = 20000;
    let items: Vec<String> = (0..n).map(|i| i.to_string()).collect();
    let block: String = (0..n).map(|i| format!("let v = {}; ", i)).collect();
    let source = format!(
        "let a = [{}]; fn f({}) {{ {} v }} if true {{ {} len(a) + v }}",
        items.join(", "),
        (0..n).map(|i| format!("p{}", i)).collect::<Vec<String>>().join(", "),
        block,
        block
    );
    let program = parse(&source);
    assert!(program.errors.is_empty());
    assert_eq!(program.statements.len(), 3);
    let mut env = Environment::default();
    let value = Evaluator::default().run(&program, &mut env).unwrap();
    assert_eq!(text_of(value), (n + n - 1).to_string());
    let sum: String = (0..n).map(|_| "1 + ").collect();
    let program = parse(&format!("{}1", sum));
    assert!(program.errors.is_empty());
    assert_eq!(program.statements.len(), 1);
}

#[test]
fn a_program_with_diagnostics_does_not_run() {
    let evaluator = Evaluator::default();
    let mut env = Environment::default();
    let broken = parse("let a = 1; let b int = true");
    assert_eq!(broken.errors.len(), 1);
    assert!(evaluator.run(&broken, &mut env).is_none());
    assert!(env.get("a".to_string()).is_none());
    let sound = parse("let a = 1; a + 1");
    assert_eq!(text_of(evaluator.run(&sound, &mut env).unwrap()), "2");
    assert_eq!(text_of(env.get("a".to_string()).unwrap()), "1");
}

#[test]
fn names_that_stand_for_values_carry_no_type() {
    let program = parse("fn f(a int) { a }");
    assert_eq!(program.errors.len(), 0);
    assert_eq!(program.to_string(), "fn f(a int) { a }");
    let program = parse("let a int = 1; let b = a");
    assert_eq!(program.to_string(), "let a int = 1; let b = a;");
    match &program.statements[0] {
        Statement::Let(l) => assert_eq!(l.name.typ, Some(bzr::ast::types::Type::Int)),
        other => panic!("not a let: {:?}", other),
    }
}

#[test]
fn evaluation_stops_at_the_depth_limit() {
    assert_eq!(
        error_message(eval("fn f(x) { f(x + 1) } f(0)")),
        "maximum evaluation depth exceeded"
    );
    let mut shallow = Evaluator::new();
    shallow.max_depth = 2;
    let node = Node::Program(parse("1 + (2 + (3 + 4))"));
    let mut env = Environment::default();
    let value = shallow.eval(Some(&node), &mut env).unwrap();
    assert_eq!(error_message(value), "maximum evaluation depth exceeded");
    let node = Node::Program(parse("1 + (2 + 3)"));
    assert_eq!(text_of(shallow.eval(Some(&node), &mut env).unwrap()), "6");
}

#[test]
fn the_registry_holds_the_native_functions() {
    let evaluator = Evaluator::new();
    let names: Vec<&str> = evaluator.build_in_fns.iter().map(|e| e.name.as_str()).collect();
    assert_eq!(
        names,
        vec![
            "len", "to_str", "to_int", "puts", "putsln", "eputs", "eputsln", "append", "slice",
            "input", "is_error"
        ]
    );
    assert_eq!(text_of(eval("len")), "build in function");
    assert_eq!(text_of(eval("let len = 3; len")), "3");
}

#[test]
fn len_counts_characters_and_elements() {
    assert_eq!(text_of(eval("len(\"h\u{e9}llo\")")), "5");
    assert_eq!(text_of(eval("len([1, 2, 3])")), "3");
    assert_eq!(text_of(eval("len(5)")), "0");
    assert_eq!(error_message(eval("len()")), "wrong number of arguments");
    assert_eq!(error_message(eval("len(1, 2)")), "wrong number of arguments");
    assert_eq!(text_of(built_in_fns::len(&vec![string("abc")])), "3");
}

#[test]
fn append_grows_arrays_in_place() {
    assert_eq!(text_of(eval("let a = [1]; append(a, 2, 3); a")), "[1, 2, 3]");
    assert_eq!(text_of(eval("let a = [1]; let b = append(a, 2); b")), "[1, 2]");
    assert_eq!(text_of(eval("append([1], [2])")), "[1, [2]]");
    assert_eq!(text_of(eval("let s = \"a\"; append(s, 1, true); s")), "a");
    assert_eq!(text_of(eval("append(\"a\", 1, true, \"b\")")), "a1trueb");
    assert_eq!(error_message(eval("append([1])")), "wrong number of arguments");
    assert_eq!(error_message(eval("append(1, 2)")), "first argument must be array");
}

#[test]
fn conversions_go_both_ways() {
    assert_eq!(text_of(eval("to_str(1, \"a\", true, [1, \"b\"])")), "1atrue[1, b]");
    assert_eq!(error_message(eval("to_str()")), "must have more than 0 arguments");
    assert_eq!(text_of(eval("to_int(\" 42 \") + 1")), "43");
    assert_eq!(text_of(eval("to_int(\"-7\")")), "-7");
    assert_eq!(text_of(eval("to_int(\"+7\")")), "7");
    assert_eq!(text_of(eval("to_int(12)")), "12");
    assert_eq!(error_message(eval("to_int(\"4 2\")")), "invalid value to parse int: 4 2");
    assert_eq!(error_message(eval("to_int(\"\")")), "invalid value to parse int: ");
    assert_eq!(
        error_message(eval("to_int(\"9223372036854775808\")")),
        "invalid value to parse int: 9223372036854775808"
    );
    assert_eq!(
        error_message(eval("to_int()")),
        "invalid number of arguments, needs 1 arguments"
    );
}

#[test]
fn slice_takes_a_part() {
    assert_eq!(text_of(eval("slice(\"hello\", 1, 3)")), "el");
    assert_eq!(text_of(eval("slice([1, 2, 3, 4], 1, 3)")), "[2, 3]");
    assert_eq!(text_of(eval("slice([1, 2], 2, 2)")), "[]");
    assert_eq!(text_of(eval("slice(5, 0, 1)")), "null");
    assert_eq!(error_message(eval("slice(\"abc\", 2, 4)")), "invalid range 2..4");
    assert_eq!(error_message(eval("slice(\"abc\", 2, 1)")), "invalid range 2..1");
    assert_eq!(error_message(eval("slice([1], -1, 1)")), "invalid range -1..1");
    assert_eq!(error_message(eval("slice(\"abc\", true, 1)")), "invalid start true");
    assert_eq!(error_message(eval("slice(\"abc\", 1, \"x\")")), "invalid end x");
    assert_eq!(
        error_message(eval("slice(\"abc\")")),
        "invalid number of arguments, must be have string/arr, start, end"
    );
}

#[test]
fn is_error_tells_errors_apart() {
    let e = Object::Error(Error::new("boom".to_string()));
    assert_eq!(text_of(built_in_fns::is_error(&vec![e])), "true");
    assert_eq!(text_of(built_in_fns::is_error(&vec![integer(1)])), "false");
    assert_eq!(text_of(eval("is_error(1)")), "false");
    assert_eq!(
        error_message(eval("is_error()")),
        "invalid number of arguments, needs 1 argument"
    );
}

#[test]
fn printing_goes_to_the_log() {
    let (value, env) = run("puts(1, \"a\"); putsln(\"b\"); eputs(true); eputsln([1])");
    assert_eq!(text_of(value.unwrap()), "[1]");
    let log: Vec<(Stream, &str)> = env.output().iter().map(|o| (o.stream, o.text.as_str())).collect();
    assert_eq!(
        log,
        vec![
            (Stream::Stdout, "1a"),
            (Stream::Stdout, "b\n"),
            (Stream::Stderr, "true"),
            (Stream::Stderr, "[1]\n")
        ]
    );
    assert_eq!(text_of(eval("puts(\"x\", 2)")), "x2");
}

#[test]
fn input_reads_the_queued_lines() {
    let program = Node::Program(parse("let a = input(); let b = input(); let c = input(); a + b + c"));
    let mut env = Environment::default();
    env.push_input("one\n".to_string());
    env.push_input("two\n".to_string());
    let value = Evaluator::default().eval(Some(&program), &mut env).unwrap();
    assert_eq!(text_of(value), "one\ntwo\n");
    assert_eq!(
        error_message(eval("input(1)")),
        "invalid number of arguments, needs no arguments"
    );
}

#[test]
fn values_print_as_text() {
    assert_eq!(integer(-12).to_string(), "-12");
    assert_eq!(integer(i64::MIN).inspect(), "-9223372036854775808");
    assert_eq!(Object::Boolean(Boolean::new(true)).to_string(), "true");
    assert_eq!(Object::Null(Null).to_string(), "null");
    assert_eq!(
        Object::Array(Array::new(vec![integer(1), string("a"), Object::Array(Array::new(vec![]))])).to_string(),
        "[1, a, []]"
    );
    assert_eq!(text_of(eval("fn f(a int, b) { ret a; }")), "fn f(a int, b) { ret a; }");
    assert_eq!(integer(1).get_type().to_string(), "int");
    assert_eq!(Object::Null(Null).get_type().to_string(), "unk");
    assert_eq!(Object::Error(Error::new("e".to_string())).get_type().to_string(), "error");
    assert!(Object::Error(Error::new("e".to_string())).is_error());
    assert!(!integer(1).clone().is_error());
}

#[test]
fn numbers_format_and_parse() {
    assert_eq!(text::int_to_string(0), "0");
    assert_eq!(text::int_to_string(-1), "-1");
    assert_eq!(text::int_to_string(1234567890), "1234567890");
    assert_eq!(text::int_to_string(i64::MAX), "9223372036854775807");
    assert_eq!(text::int_to_string(i64::MIN), "-9223372036854775808");
    assert_eq!(text::nat_to_string(10), "10");
    let chars = |s: &str| s.chars().collect::<Vec<char>>();
    assert_eq!(text::parse_i64(&chars("0")), Some(0));
    assert_eq!(text::parse_i64(&chars("-9223372036854775808")), Some(i64::MIN));
    assert_eq!(text::parse_i64(&chars("9223372036854775807")), Some(i64::MAX));
    assert_eq!(text::parse_i64(&chars("9223372036854775808")), None);
    assert_eq!(text::parse_i64(&chars("-9223372036854775809")), None);
    assert_eq!(text::parse_i64(&chars("00000000000000000000012")), Some(12));
    assert_eq!(text::parse_i64(&chars("+5")), Some(5));
    assert_eq!(text::parse_i64(&chars("")), None);
    assert_eq!(text::parse_i64(&chars("-")), None);
    assert_eq!(text::parse_i64(&chars("1x")), None);
    assert_eq!(text::parse_i64(&chars("--1")), None);
    for v in [0i64, 1, -1, 9, 10, -10, 99, 100, i64::MAX, i64::MIN] {
        assert_eq!(text::parse_i64(&chars(&text::int_to_string(v))), Some(v));
        assert_eq!(text::int_to_string(v), v.to_string());
    }
}

#[test]
fn trimming_cuts_white_space_off_both_ends() {
    let chars = |s: &str| s.chars().collect::<Vec<char>>();
    assert_eq!(text::trim(&chars("  a b \t\n")), chars("a b"));
    assert_eq!(text::trim(&chars("\u{a0}\u{3000}x\u{2028}")), chars("x"));
    assert_eq!(text::trim(&chars("   ")), chars(""));
    assert_eq!(text::trim(&chars("")), chars(""));
    assert_eq!(text::trim(&chars("x")), chars("x"));
    for c in ['\u{9}', '\u{d}', ' ', '\u{85}', '\u{1680}', '\u{2000}', '\u{200a}', '\u{202f}', '\u{205f}'] {
        assert!(text::is_space_char(c));
        assert!(c.is_whitespace());
    }
    for c in ['a', '\u{8}', '\u{e}', '\u{200b}', '\u{feff}', '0'] {
        assert!(!text::is_space_char(c));
        assert!(!c.is_whitespace());
    }
    assert_eq!(text::chars_of("h\u{e9}"), chars("h\u{e9}"));
    assert_eq!(text::text_of(&chars("hello"), 1, 3), "el");
    assert_eq!(text::concat("ab", "cd"), "abcd");
}
