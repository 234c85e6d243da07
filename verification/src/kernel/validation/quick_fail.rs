//! Staged validation with early exit: parser, domain, special values, types.

use vstd::prelude::*;
use crate::kernel::validation::domain::{domain_check, matches_of, DomainChecker, LogLiterals};
use crate::kernel::validation::parser::{parser_check, ParserValidator};
use crate::kernel::validation::special::{special_check, SpecialValueChecker};
use crate::kernel::validation::type_check::{check_type, Type, TypeChecker};
use crate::kernel::validation::types::{
    ValidationError, ValidationErrorView, ValidationResult, result_view,
};
use crate::text::to_owned_string;

verus! {

/// The stages in order: parser, domain, special values, types.
pub open spec fn staged_check(s: Seq<char>, l: LogLiterals) -> Result<Type, ValidationErrorView> {
    match parser_check(s) {
        Err(e) => Err(e),
        Ok(_) => match domain_check(s, matches_of(s), l) {
            Err(e) => Err(e),
            Ok(_) => match special_check(s) {
                Err(e) => Err(e),
                Ok(_) => check_type(s),
            },
        },
    }
}

/// The names of the first `n` stages.
pub open spec fn stage_names(n: int) -> Seq<Seq<char>> {
    seq!["parser"@, "domain"@, "special"@, "type"@].take(n)
}

/// Outcome of an incremental validation: the stages passed, the error that
/// stopped it (if any) and the inferred type (`Unknown` unless all stages passed).
pub struct ValidationOutcome {
    pub valid: bool,
    pub expr_type: Type,
    pub checks_passed: Vec<String>,
    pub errors: Option<Vec<ValidationError>>,
}

/// What the incremental validation of `s` reports: (stages passed, error, type).
pub open spec fn incremental(s: Seq<char>, l: LogLiterals) -> (int, Option<ValidationErrorView>, Type) {
    match parser_check(s) {
        Err(e) => (0, Some(e), Type::Unknown),
        Ok(_) => match domain_check(s, matches_of(s), l) {
            Err(e) => (1, Some(e), Type::Unknown),
            Ok(_) => match special_check(s) {
                Err(e) => (2, Some(e), Type::Unknown),
                Ok(_) => match check_type(s) {
                    Err(e) => (3, Some(e), Type::Unknown),
                    Ok(t) => (4, None, t),
                },
            },
        },
    }
}

impl ValidationOutcome {
    /// The outcome agrees with `incremental(s, l)`.
    pub open spec fn describes(&self, s: Seq<char>, l: LogLiterals) -> bool {
        let (n, err, t) = incremental(s, l);
        &&& self.valid == err is None
        &&& self.expr_type == t
        &&& self.checks_passed@.len() == n
        &&& forall|i: int| 0 <= i < n ==> #[trigger] self.checks_passed@[i]@ == stage_names(n)[i]
        &&& match err {
            None => self.errors is None,
            Some(e) => self.errors matches Some(v) && v@.len() == 1 && v@[0]@ == e,
        }
    }
}

/// Runs the validators in order and stops at the first error.
pub struct QuickValidator {
    parser: ParserValidator,
    type_checker: TypeChecker,
    domain_checker: DomainChecker,
    special_checker: SpecialValueChecker,
}

impl QuickValidator {
    pub fn new() -> Self {
        QuickValidator {
            parser: ParserValidator::new(),
            type_checker: TypeChecker::new(),
            domain_checker: DomainChecker::new(),
            special_checker: SpecialValueChecker::new(),
        }
    }

    /// The domain checker this validator runs.
    pub fn domain_checker(&self) -> &DomainChecker {
        &self.domain_checker
    }

    /// All stages, stopping at the first error; the inferred type on success.
    /// `l` tells which logarithm arguments read as non-positive numbers.
    pub fn validate_given(&self, expr: &str, l: &LogLiterals) -> (r: ValidationResult<Type>)
        ensures
            result_view(r) == staged_check(expr@, *l),
            r matches Err(e) ==> e.wf(),
    {
        self.parser.validate(expr)?;
        self.domain_checker.check_with_literals(expr, l)?;
        self.special_checker.check_expression(expr)?;
        self.type_checker.check(expr)
    }

    /// All stages, recording which passed and the error that stopped the run.
    pub fn validate_incremental_given(&self, expr: &str, l: &LogLiterals) -> (o: ValidationOutcome)
        ensures
            o.describes(expr@, *l),
    {
        let mut passed: Vec<String> = Vec::new();
        let mut errors: Vec<ValidationError> = Vec::new();
        let mut expr_type = Type::Unknown;
        proof {
            reveal_strlit("parser");
            reveal_strlit("domain");
            reveal_strlit("special");
            reveal_strlit("type");
        }
        match self.parser.validate(expr) {
            Err(e) => {
                errors.push(e);
            },
            Ok(()) => {
                passed.push(to_owned_string("parser"));
                match self.domain_checker.check_with_literals(expr, l) {
                    Err(e) => {
                        errors.push(e);
                    },
                    Ok(()) => {
                        passed.push(to_owned_string("domain"));
                        match self.special_checker.check_expression(expr) {
                            Err(e) => {
                                errors.push(e);
                            },
                            Ok(()) => {
                                passed.push(to_owned_string("special"));
                                match self.type_checker.check(expr) {
                                    Ok(t) => {
                                        passed.push(to_owned_string("type"));
                                        expr_type = t;
                                    },
                                    Err(e) => {
                                        errors.push(e);
                                    },
                                }
                            },
                        }
                    },
                }
            },
        }
        let valid = errors.len() == 0;
        ValidationOutcome {
            valid,
            expr_type,
            checks_passed: passed,
            errors: if valid { None } else { Some(errors) },
        }
    }

    /// Fast check: the parser stage only.
    pub fn quick_check(&self, expr: &str) -> (r: ValidationResult<()>)
        ensures
            result_view(r) == parser_check(expr@),
            r matches Err(e) ==> e.wf(),
    {
        self.parser.validate(expr)
    }
}

/// Entry point of NanoCheck L0 validation.
pub struct NanoChecker {
    validator: QuickValidator,
}

impl NanoChecker {
    pub fn new() -> Self {
        NanoChecker { validator: QuickValidator::new() }
    }

    /// The validator this checker runs.
    pub fn validator(&self) -> &QuickValidator {
        &self.validator
    }

    /// Fast check: the parser stage only.
    pub fn quick(&self, expr: &str) -> (r: ValidationResult<()>)
        ensures
            result_view(r) == parser_check(expr@),
            r matches Err(e) ==> e.wf(),
    {
        self.validator.quick_check(expr)
    }
}

} // verus!
