use bzr::ast::program::Program;
use bzr::lexer::Lexer;
use bzr::parser::Parser;

fn parse(source: &str) -> Program {
    let lexer = Lexer::new(source.to_string(), "foo.bzr".to_string());
    Parser::new(lexer).parse_program()
}

/// Checks that the text of the tree of `source` parses to a tree with the
/// same text, and that the tree after that is the same tree.
fn check(source: &str) -> bool {
    let first = parse(source);
    if !first.errors.is_empty() {
        return false;
    }
    let text = first.to_string();
    let second = parse(&text);
    assert!(second.errors.is_empty(), "{:?} printed as {:?}: {:?}", source, text, second.errors);
    assert_eq!(second.statements.len(), first.statements.len(), "{:?} printed as {:?}", source, text);
    let again = second.to_string();
    assert_eq!(text, again, "source: {:?}", source);
    let third = parse(&again);
    assert_eq!(
        format!("{:?}", second.statements),
        format!("{:?}", third.statements),
        "source: {:?}",
        source
    );
    true
}

fn atoms() -> Vec<String> {
    [
        "a", "b1", "5", "-3", "0", "true", "false", "\"s\"", "\"\"", "\" a b \"", "[]", "[1, a]",
        "f()", "f(x, 2)", "(5)", "(-3)", "- 3", "-a", "!a", "!!a", "--3",
    ]
    .iter()
    .map(|s| s.to_string())
    .collect()
}

fn forms(x: &str, y: &str) -> Vec<String> {
    let mut out = Vec::new();
    for op in ["+", "-", "*", "/", "==", "!=", "<", ">", "<=", ">=", "&&", "||", "="] {
        out.push(format!("{} {} {}", x, op, y));
        out.push(format!("({} {} {})", x, op, y));
    }
    out.push(format!("-{}", x));
    out.push(format!("- {}", x));
    out.push(format!("!{}", x));
    out.push(format!("-({})", x));
    out.push(format!("({})", x));
    out.push(format!("{}({})", x, y));
    out.push(format!("({})({}, {})", x, y, x));
    out.push(format!("{} [{}]", x, y));
    out.push(format!("({})[{}]", x, y));
    out.push(format!("[{}, {}]", x, y));
    out.push(format!("if {} {{ {} }}", x, y));
    out.push(format!("if {} {{ {}; {} }} else {{ {} }}", x, y, x, y));
    out.push(format!("if {} {{ {} }} else if {} {{ {} }} else {{ {} }}", x, y, y, x, y));
    out.push(format!("while {} {{ {}; }}", x, y));
    out.push(format!("fn f(p int, q) {{ {}; ret {}; }}", x, y));
    out.push(format!("fn f() bool {{ }} ({})", x));
    out.push(format!("let v = {}; {}", x, y));
    out.push(format!("var v = {}", x));
    out.push(format!("ret {}; {}", x, y));
    out.push(format!("{}; {}", x, y));
    out.push(format!("{}\n{}", x, y));
    out
}

#[test]
fn small_programs_survive_printing() {
    let atoms = atoms();
    let mut checked = 0;
    for x in atoms.iter() {
        if check(x) {
            checked += 1;
        }
        for y in atoms.iter() {
            for source in forms(x, y) {
                if check(&source) {
                    checked += 1;
                }
            }
        }
    }
    assert!(checked > 10000, "only {} programs were without diagnostics", checked);
}

#[test]
fn nested_programs_survive_printing() {
    let atoms = ["a", "5", "-3", "\"s\"", "f(x)", "[1]"];
    let mut seeds = Vec::new();
    for x in atoms.iter() {
        for y in atoms.iter() {
            seeds.extend(forms(x, y));
        }
    }
    // Every seventh pair of forms, nested into each other.
    let mut checked = 0;
    let mut n = 0;
    for x in seeds.iter() {
        for y in seeds.iter().step_by(37) {
            n += 1;
            if n % 7 != 0 {
                continue;
            }
            for source in forms(x, y).iter().step_by(5) {
                if check(source) {
                    checked += 1;
                }
            }
        }
    }
    assert!(checked > 1000, "only {} programs were without diagnostics", checked);
}
