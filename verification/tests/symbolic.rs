use mathcore::compute::lexer::{Lexer, Token};
use mathcore::compute::symbolic::{parse, Expr, SymbolicEngine, SyntaxError};

fn var(name: &str) -> Box<Expr> {
    Box::new(Expr::Var(name.to_string()))
}

fn num(text: &str) -> Box<Expr> {
    Box::new(Expr::Const(text.to_string()))
}

#[test]
fn test_parse_constant() {
    let expr = parse("42").unwrap();
    match expr {
        Expr::Const(text) => assert_eq!(text.parse::<f64>().unwrap(), 42.0),
        other => panic!("not a constant: {:?}", other),
    }
}

#[test]
fn mod_test_parse_variable() {
    let expr = parse("x").unwrap();
    assert_eq!(expr, Expr::Var("x".to_string()));
}

#[test]
fn parse_gives_products_precedence_over_sums() {
    let expr = parse("x^2 + 2*x + 1").unwrap();
    let square = Expr::Pow(var("x"), num("2"));
    let twice = Expr::Mul(num("2"), var("x"));
    let sum = Expr::Add(Box::new(square), Box::new(twice));
    assert_eq!(expr, Expr::Add(Box::new(sum), num("1")));
}

#[test]
fn parse_groups_sums_to_the_left_and_powers_to_the_right() {
    assert_eq!(
        parse("a - b - c").unwrap(),
        Expr::Sub(Box::new(Expr::Sub(var("a"), var("b"))), var("c"))
    );
    assert_eq!(
        parse("a / b * c").unwrap(),
        Expr::Mul(Box::new(Expr::Div(var("a"), var("b"))), var("c"))
    );
    assert_eq!(
        parse("a ^ b ^ c").unwrap(),
        Expr::Pow(var("a"), Box::new(Expr::Pow(var("b"), var("c"))))
    );
}

#[test]
fn parse_reads_negation_brackets_and_calls() {
    assert_eq!(
        parse("-x^2").unwrap(),
        Expr::Neg(Box::new(Expr::Pow(var("x"), num("2"))))
    );
    assert_eq!(
        parse("(a + b) * c").unwrap(),
        Expr::Mul(Box::new(Expr::Add(var("a"), var("b"))), var("c"))
    );
    assert_eq!(
        parse("sqrt(x) + ln(exp(y))").unwrap(),
        Expr::Add(
            Box::new(Expr::Sqrt(var("x"))),
            Box::new(Expr::Ln(Box::new(Expr::Exp(var("y")))))
        )
    );
    assert_eq!(parse("sin(cos(tan(log(z))))").unwrap(),
        Expr::Sin(Box::new(Expr::Cos(Box::new(Expr::Tan(Box::new(Expr::Log(var("z")))))))));
}

#[test]
fn parse_keeps_every_dot_of_a_literal() {
    assert_eq!(parse("1.2.3").unwrap(), Expr::Const("1.2.3".to_string()));
    assert_eq!(parse("  3.50 ").unwrap(), Expr::Const("3.50".to_string()));
}

#[test]
fn parse_reports_each_syntax_error() {
    assert_eq!(parse("foo(x)"), Err(SyntaxError::UnknownFunction("foo".to_string())));
    assert_eq!(parse("(x + 1"), Err(SyntaxError::ExpectedRParen(Token::Eof)));
    assert_eq!(parse("sin(x y)"), Err(SyntaxError::ExpectedRParen(Token::Identifier("y".to_string()))));
    assert_eq!(parse("x + * y"), Err(SyntaxError::UnexpectedToken(Token::Star)));
    assert_eq!(parse(""), Err(SyntaxError::UnexpectedToken(Token::Eof)));
    assert_eq!(parse("x y"), Err(SyntaxError::TrailingTokens));
    assert_eq!(parse("2)"), Err(SyntaxError::TrailingTokens));
}

#[test]
fn parse_checks_the_bracket_before_the_function_name() {
    assert_eq!(parse("foo(x"), Err(SyntaxError::ExpectedRParen(Token::Eof)));
}

#[test]
fn engine_parse_agrees_with_parse() {
    let engine = SymbolicEngine::new();
    assert_eq!(engine.parse("x * 3"), parse("x * 3"));
}

#[test]
fn symbolic_lexer_takes_every_dot() {
    let mut lexer = Lexer::with_single_dot("1.2.3 + 4", false);
    assert_eq!(
        lexer.tokenize(),
        vec![Token::Number("1.2.3".to_string()), Token::Plus, Token::Number("4".to_string()), Token::Eof]
    );
}
