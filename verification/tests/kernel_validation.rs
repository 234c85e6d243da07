use mathcore::kernel::validation::domain::{DomainChecker, LogLiterals};
use mathcore::kernel::validation::parser::ParserValidator;
use mathcore::kernel::validation::quick_fail::{NanoChecker, QuickValidator};
use mathcore::kernel::validation::special::SpecialValueChecker;
use mathcore::kernel::validation::type_check::{Type, TypeChecker};
use mathcore::kernel::validation::types::{ErrorCode, ValidationError, ValidationResult};

/// Reads the logarithm arguments as numbers, as the checker's callers do.
fn log_literals(dc: &DomainChecker, expr: &str) -> LogLiterals {
    let non_positive = |k: usize| match dc.log_argument(expr, k) {
        Some(arg) => match arg.parse::<f64>() {
            Ok(v) => v <= 0.0,
            Err(_) => false,
        },
        None => false,
    };
    LogLiterals { log: non_positive(0), ln: non_positive(1), log10: non_positive(2), log2: non_positive(3) }
}

fn domain_check(dc: &DomainChecker, expr: &str) -> ValidationResult<()> {
    dc.check_with_literals(expr, &log_literals(dc, expr))
}

#[test]
fn test_empty_expression() {
    let v = ParserValidator::new();
    assert!(v.validate("").is_err());
    assert!(v.validate("   ").is_err());
}

#[test]
fn test_valid_expression() {
    let v = ParserValidator::new();
    assert!(v.validate("1+2*3").is_ok());
    assert!(v.validate("(1+2)*3").is_ok());
    assert!(v.validate("sqrt(4) + sin(0)").is_ok());
}

#[test]
fn test_unmatched_parentheses() {
    let v = ParserValidator::new();
    assert!(v.validate("(1+2").is_err());
    assert!(v.validate("1+2)").is_err());
}

#[test]
fn test_consecutive_operators() {
    let v = ParserValidator::new();
    assert!(v.validate("1++2").is_err());
    assert!(v.validate("1*/2").is_err());
}

#[test]
fn test_trailing_operator() {
    let v = ParserValidator::new();
    assert!(v.validate("1+2+").is_err());
    assert!(v.validate("1+2*").is_err());
}

#[test]
fn test_invalid_characters() {
    let v = ParserValidator::new();
    assert!(v.validate("1@2").is_err());
}

#[test]
fn test_complex_expression() {
    let v = ParserValidator::new();
    assert!(v.validate("((x + y) * (z - w)) / 2").is_ok());
    assert!(v.validate("sin(x)^2 + cos(x)^2").is_ok());
}

#[test]
fn parser_reports_codes_and_columns() {
    let v = ParserValidator::new();
    let e = v.validate("1@2").unwrap_err();
    assert_eq!(e.code, ErrorCode::E002);
    assert_eq!(e.position, Some((1, 2)));
    assert_eq!(v.validate("").unwrap_err().code, ErrorCode::E001);
    assert_eq!(v.validate("(1+2").unwrap_err().code, ErrorCode::E003);
    assert_eq!(v.validate("1++2").unwrap_err().code, ErrorCode::E004);
    assert_eq!(v.validate("1+2+").unwrap_err().code, ErrorCode::E005);
}

#[test]
fn test_number_types() {
    let tc = TypeChecker::new();
    assert_eq!(tc.check("42").unwrap(), Type::Integer);
    assert_eq!(tc.check("3.14").unwrap(), Type::Real);
    assert_eq!(tc.check("1e10").unwrap(), Type::Real);
}

#[test]
fn test_complex() {
    let tc = TypeChecker::new();
    assert_eq!(tc.check("3+4i").unwrap(), Type::Complex);
}

#[test]
fn test_functions() {
    let tc = TypeChecker::new();
    assert_eq!(tc.check("sin(x)").unwrap(), Type::Real);
    assert_eq!(tc.check("sqrt(x)").unwrap(), Type::Real);
}

#[test]
fn test_operations() {
    let tc = TypeChecker::new();
    assert_eq!(tc.check("1+2").unwrap(), Type::Integer);
    assert_eq!(tc.check("1.0+2").unwrap(), Type::Real);
}

#[test]
fn type_checker_matrices_vectors_and_mismatch() {
    let tc = TypeChecker::new();
    assert_eq!(tc.check("det(a)").unwrap(), Type::Matrix { rows: 0, cols: 0 });
    assert_eq!(tc.check("vec(a)+vec(b)").unwrap(), Type::Vector { len: 0 });
    assert_eq!(tc.check("2^3").unwrap(), Type::Real);
    assert_eq!(tc.check("(7)").unwrap(), Type::Integer);
    // A call anywhere decides the type by its function name.
    assert_eq!(tc.check("det(a)+1").unwrap(), Type::Matrix { rows: 0, cols: 0 });
    let e = tc.check("x+1").unwrap_err();
    assert_eq!(e.code, ErrorCode::T001);
    assert_eq!(tc.check("  ").unwrap_err().code, ErrorCode::E001);
}

#[test]
fn test_sqrt_domain() {
    let dc = DomainChecker::new();
    assert!(domain_check(&dc, "sqrt(-1)").is_err());
    assert!(domain_check(&dc, "sqrt(4)").is_ok());
}

#[test]
fn test_log_domain() {
    let dc = DomainChecker::new();
    assert!(domain_check(&dc, "log(0)").is_err());
    assert!(domain_check(&dc, "log(-1)").is_err());
    assert!(domain_check(&dc, "log(1)").is_ok());
}

#[test]
fn test_division_by_zero() {
    let dc = DomainChecker::new();
    assert!(domain_check(&dc, "1/0").is_err());
    assert!(domain_check(&dc, "5%0").is_err());
    assert!(domain_check(&dc, "1/2").is_ok());
}

#[test]
fn test_factorial_domain() {
    let dc = DomainChecker::new();
    assert!(domain_check(&dc, "-5!").is_err());
    assert!(domain_check(&dc, "200!").is_err());
}

#[test]
fn domain_error_codes() {
    let dc = DomainChecker::new();
    assert_eq!(domain_check(&dc, "sqrt(-1)").unwrap_err().code, ErrorCode::D001);
    assert_eq!(domain_check(&dc, "1/0").unwrap_err().code, ErrorCode::D003);
    assert_eq!(domain_check(&dc, "200!").unwrap_err().code, ErrorCode::O001);
    assert_eq!(dc.log_argument("ln( 2.5 )+1", 1), Some("2.5".to_string()));
    assert_eq!(dc.log_argument("ln(2", 1), None);
}

#[test]
fn test_quick_validator() {
    let v = QuickValidator::new();
    assert!(v.quick_check("1+2").is_ok());
    assert!(v.quick_check("").is_err());
}

#[test]
fn test_full_validation() {
    let v = QuickValidator::new();
    let start = std::time::Instant::now();
    let result = v.validate_given("1+2*3", &log_literals(v.domain_checker(), "1+2*3"));
    let elapsed_ms = start.elapsed().as_secs_f64() * 1000.0;
    assert!(result.is_ok());
    assert!(elapsed_ms < 1.0, "Should be <1ms, was {}ms", elapsed_ms);
}

#[test]
fn test_incremental_validation() {
    let v = QuickValidator::new();
    let report = v.validate_incremental_given("sqrt(-1)", &log_literals(v.domain_checker(), "sqrt(-1)"));
    assert!(!report.valid);
    assert!(report.errors.is_some());
}

#[test]
fn test_nano_checker() {
    let nc = NanoChecker::new();
    let v = nc.validator();
    let report = v.validate_incremental_given("1+2", &log_literals(v.domain_checker(), "1+2"));
    assert!(report.valid);
}

#[test]
fn incremental_validation_lists_stages() {
    let v = QuickValidator::new();
    let ok = v.validate_incremental_given("1+2", &log_literals(v.domain_checker(), "1+2"));
    assert_eq!(ok.checks_passed, vec!["parser", "domain", "special", "type"]);
    assert_eq!(ok.expr_type, Type::Integer);
    let bad = v.validate_incremental_given("0/0", &log_literals(v.domain_checker(), "0/0"));
    assert_eq!(bad.checks_passed, vec!["parser"]);
    assert_eq!(bad.errors.unwrap()[0].code, ErrorCode::D003);
    let nc = NanoChecker::new();
    assert!(nc.quick("1+").is_err());
}

#[test]
fn special_values_are_rejected() {
    let svc = SpecialValueChecker::new();
    assert!(svc.check_expression("1+2").is_ok());
    assert_eq!(svc.check_expression("x*NaN").unwrap_err().code, ErrorCode::O001);
    assert!(svc.check_expression("Inf-Inf").is_err());
}

#[test]
fn test_error_code_display() {
    assert_eq!(ErrorCode::E001.to_string(), "E001");
    assert_eq!(ErrorCode::T001.to_string(), "T001");
    assert_eq!(ErrorCode::D001.to_string(), "D001");
}

#[test]
fn types_test_validation_error_display() {
    let e = ValidationError::new(ErrorCode::E001, "表达式为空");
    assert_eq!(e.to_string(), "[E001] 未知位置: 表达式为空");

    let e = e.with_position(1, 5);
    assert_eq!(e.to_string(), "[E001] 行1列5: 表达式为空");
}

#[test]
fn test_validation_error_context() {
    let e = ValidationError::new(ErrorCode::T001, "类型错误")
        .with_context("expr", "sqrt(-1)")
        .with_context("operation", "sqrt");

    assert_eq!(e.context.get("expr"), Some(&"sqrt(-1)".to_string()));
}

#[test]
fn context_insert_replaces_value() {
    let e = ValidationError::new(ErrorCode::T001, "x").with_context("k", "a").with_context("k", "b");
    assert_eq!(e.context.get("k"), Some(&"b".to_string()));
    assert_eq!(e.context.len(), 1);
    assert_eq!(e.context.get("other"), None);
}

#[test]
fn parentheses_check_reports_position() {
    let p = ParserValidator::new();
    assert!(p.validate_parentheses("(a+(b))").is_ok());
    let e = p.validate_parentheses("a)(").unwrap_err();
    assert_eq!(e.code, ErrorCode::E003);
    assert_eq!(e.position, Some((1, 2)));
    let e = p.validate_parentheses("((a)").unwrap_err();
    assert_eq!(e.position, Some((1, 4)));
}
