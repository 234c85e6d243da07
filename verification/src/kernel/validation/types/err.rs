//! Constructors for the common validation errors.

use vstd::prelude::*;
use crate::kernel::validation::types::{
    error_at, plain_error, ErrorCode, ValidationError, ValidationErrorView,
};
use crate::text::{string_push, string_push_str};

verus! {

/// `E001 表达式为空`.
pub open spec fn empty_expr_view() -> ValidationErrorView {
    plain_error(ErrorCode::E001, "表达式为空"@)
}

/// The expression is empty.
pub fn empty_expr() -> (e: ValidationError)
    ensures
        e.wf(),
        e@ == empty_expr_view(),
{
    ValidationError::new(ErrorCode::E001, "表达式为空")
}

/// `E002 无效字符: 'c'` at line 1, column `col`.
pub open spec fn invalid_char_view(c: char, col: usize) -> ValidationErrorView {
    error_at(ErrorCode::E002, "无效字符: '"@ + seq![c] + "'"@, col)
}

/// The character `c` at column `col` is not allowed.
pub fn invalid_char(c: char, col: usize) -> (e: ValidationError)
    ensures
        e.wf(),
        e@ == invalid_char_view(c, col),
{
    let mut m = String::new();
    string_push_str(&mut m, "无效字符: '");
    string_push(&mut m, c);
    string_push_str(&mut m, "'");
    let e = ValidationError::new(ErrorCode::E002, m.as_str()).with_position(1, col);
    assert(e@.message =~= invalid_char_view(c, col).message);
    e
}

/// `E003 括号不匹配` at line 1, column `col`.
pub open spec fn unmatched_paren_view(col: usize) -> ValidationErrorView {
    error_at(ErrorCode::E003, "括号不匹配"@, col)
}

/// A parenthesis at column `col` has no partner.
pub fn unmatched_paren(col: usize) -> (e: ValidationError)
    ensures
        e.wf(),
        e@ == unmatched_paren_view(col),
{
    ValidationError::new(ErrorCode::E003, "括号不匹配").with_position(1, col)
}

/// `E004 连续操作符: op1 op2`.
pub open spec fn consecutive_ops_view(op1: Seq<char>, op2: Seq<char>) -> ValidationErrorView {
    plain_error(ErrorCode::E004, "连续操作符: "@ + op1 + " "@ + op2)
}

/// Two operators follow each other.
pub fn consecutive_ops(op1: &str, op2: &str) -> (e: ValidationError)
    ensures
        e.wf(),
        e@ == consecutive_ops_view(op1@, op2@),
{
    let mut m = String::new();
    string_push_str(&mut m, "连续操作符: ");
    string_push_str(&mut m, op1);
    string_push_str(&mut m, " ");
    string_push_str(&mut m, op2);
    let e = ValidationError::new(ErrorCode::E004, m.as_str());
    assert(e@.message =~= consecutive_ops_view(op1@, op2@).message);
    e
}

/// `E005 尾随操作符: op`.
pub open spec fn trailing_op_view(op: Seq<char>) -> ValidationErrorView {
    plain_error(ErrorCode::E005, "尾随操作符: "@ + op)
}

/// The expression ends with an operator.
pub fn trailing_op(op: &str) -> (e: ValidationError)
    ensures
        e.wf(),
        e@ == trailing_op_view(op@),
{
    let mut m = String::new();
    string_push_str(&mut m, "尾随操作符: ");
    string_push_str(&mut m, op);
    let e = ValidationError::new(ErrorCode::E005, m.as_str());
    assert(e@.message =~= trailing_op_view(op@).message);
    e
}

/// `T001 类型不匹配: 期望expected, 实际found`.
pub open spec fn type_mismatch_view(expected: Seq<char>, found: Seq<char>) -> ValidationErrorView {
    plain_error(ErrorCode::T001, "类型不匹配: 期望"@ + expected + ", 实际"@ + found)
}

/// The operand types do not fit together.
pub fn type_mismatch(expected: &str, found: &str) -> (e: ValidationError)
    ensures
        e.wf(),
        e@ == type_mismatch_view(expected@, found@),
{
    let mut m = String::new();
    string_push_str(&mut m, "类型不匹配: 期望");
    string_push_str(&mut m, expected);
    string_push_str(&mut m, ", 实际");
    string_push_str(&mut m, found);
    let e = ValidationError::new(ErrorCode::T001, m.as_str());
    assert(e@.message =~= type_mismatch_view(expected@, found@).message);
    e
}

/// A domain error (code D001) with the given message.
pub fn domain_error(msg: &str) -> (e: ValidationError)
    ensures
        e.wf(),
        e@ == plain_error(ErrorCode::D001, msg@),
{
    ValidationError::new(ErrorCode::D001, msg)
}

/// `D003 除零错误`.
pub open spec fn division_by_zero_view() -> ValidationErrorView {
    plain_error(ErrorCode::D003, "除零错误"@)
}

/// Division (or remainder) by zero.
pub fn division_by_zero() -> (e: ValidationError)
    ensures
        e.wf(),
        e@ == division_by_zero_view(),
{
    ValidationError::new(ErrorCode::D003, "除零错误")
}

/// An overflow error (code O001) with the given message.
pub fn overflow(msg: &str) -> (e: ValidationError)
    ensures
        e.wf(),
        e@ == plain_error(ErrorCode::O001, msg@),
{
    ValidationError::new(ErrorCode::O001, msg)
}

} // verus!
