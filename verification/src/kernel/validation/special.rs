//! Detection of expressions that would evaluate to NaN or infinity.

use vstd::prelude::*;
use crate::kernel::validation::types::{
    plain_error, ErrorCode, ValidationError, ValidationErrorView, ValidationResult, result_view,
};
use crate::text::{chars_of, contains_chars, has_substring, lowercase, str_to_lowercase};

verus! {

/// The first problematic pattern found in the lower-cased expression decides.
pub open spec fn special_check(s: Seq<char>) -> Result<(), ValidationErrorView> {
    let l = lowercase(s);
    if has_substring(l, "0/0"@) {
        Err(plain_error(ErrorCode::O001, "0/0 会产生 NaN"@))
    } else if has_substring(l, "inf-inf"@) {
        Err(plain_error(ErrorCode::O001, "无穷大减无穷大会产生 NaN"@))
    } else if has_substring(l, "inf*0"@) {
        Err(plain_error(ErrorCode::O001, "无穷大乘以零会产生 NaN"@))
    } else if has_substring(l, "inf/inf"@) {
        Err(plain_error(ErrorCode::O001, "无穷大除以无穷大"@))
    } else if has_substring(l, "nan"@) {
        Err(plain_error(ErrorCode::O001, "包含 NaN"@))
    } else {
        Ok(())
    }
}

/// Checks for IEEE 754 special values (NaN, infinity).
pub struct SpecialValueChecker;

impl SpecialValueChecker {
    pub fn new() -> Self {
        SpecialValueChecker
    }

    /// Rejects expressions whose lower-cased text contains `0/0`, `inf-inf`,
    /// `inf*0`, `inf/inf` or `nan` (checked in that order).
    pub fn check_expression(&self, expr: &str) -> (r: ValidationResult<()>)
        ensures
            result_view(r) == special_check(expr@),
            r matches Err(e) ==> e.wf(),
    {
        let lower = str_to_lowercase(expr);
        let l = chars_of(lower.as_str());
        let l = l.as_slice();
        let p1 = chars_of("0/0");
        if contains_chars(l, p1.as_slice()) {
            return Err(ValidationError::new(ErrorCode::O001, "0/0 会产生 NaN"));
        }
        let p2 = chars_of("inf-inf");
        if contains_chars(l, p2.as_slice()) {
            return Err(ValidationError::new(ErrorCode::O001, "无穷大减无穷大会产生 NaN"));
        }
        let p3 = chars_of("inf*0");
        if contains_chars(l, p3.as_slice()) {
            return Err(ValidationError::new(ErrorCode::O001, "无穷大乘以零会产生 NaN"));
        }
        let p4 = chars_of("inf/inf");
        if contains_chars(l, p4.as_slice()) {
            return Err(ValidationError::new(ErrorCode::O001, "无穷大除以无穷大"));
        }
        let p5 = chars_of("nan");
        if contains_chars(l, p5.as_slice()) {
            return Err(ValidationError::new(ErrorCode::O001, "包含 NaN"));
        }
        Ok(())
    }
}

} // verus!
