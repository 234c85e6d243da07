//! Type inference for expressions: numbers, complex literals, function calls
//! and binary operations.

use vstd::prelude::*;
use crate::kernel::validation::parser::is_op;
use crate::kernel::validation::types::{ValidationErrorView, ValidationResult, result_view};
use crate::kernel::validation::types::err::{empty_expr, empty_expr_view, type_mismatch, type_mismatch_view};
use crate::text::{
    chars_eq_str, chars_of, contains_char, copy_range, decimal, lowercase, push_decimal,
    str_to_lowercase, string_from_chars, string_push_str, to_owned_string, trim, trim_bounds,
};

verus! {

/// The type of an expression.
#[derive(Debug, Clone, PartialEq, Eq, Structural)]
pub enum Type {
    Unknown,
    Integer,
    Real,
    Complex,
    Matrix { rows: usize, cols: usize },
    Vector { len: usize },
    Boolean,
}

impl Type {
    /// The displayed name, such as `Real` or `Matrix(2×3)`.
    pub open spec fn name(self) -> Seq<char> {
        match self {
            Type::Unknown => "Unknown"@,
            Type::Integer => "Integer"@,
            Type::Real => "Real"@,
            Type::Complex => "Complex"@,
            Type::Matrix { rows, cols } => "Matrix("@ + decimal(rows as nat) + "×"@ + decimal(cols as nat) + ")"@,
            Type::Vector { len } => "Vector("@ + decimal(len as nat) + ")"@,
            Type::Boolean => "Boolean"@,
        }
    }

    /// A copy of the type.
    pub fn duplicate(&self) -> (t: Type)
        ensures
            t == *self,
    {
        match self {
            Type::Unknown => Type::Unknown,
            Type::Integer => Type::Integer,
            Type::Real => Type::Real,
            Type::Complex => Type::Complex,
            Type::Matrix { rows, cols } => Type::Matrix { rows: *rows, cols: *cols },
            Type::Vector { len } => Type::Vector { len: *len },
            Type::Boolean => Type::Boolean,
        }
    }

    /// The displayed name of the type.
    pub fn to_string(&self) -> (r: String)
        ensures
            r@ == self.name(),
    {
        match self {
            Type::Unknown => to_owned_string("Unknown"),
            Type::Integer => to_owned_string("Integer"),
            Type::Real => to_owned_string("Real"),
            Type::Complex => to_owned_string("Complex"),
            Type::Matrix { rows, cols } => {
                let mut r = to_owned_string("Matrix(");
                push_decimal(&mut r, *rows as u64);
                string_push_str(&mut r, "×");
                push_decimal(&mut r, *cols as u64);
                string_push_str(&mut r, ")");
                r
            },
            Type::Vector { len } => {
                let mut r = to_owned_string("Vector(");
                push_decimal(&mut r, *len as u64);
                string_push_str(&mut r, ")");
                r
            },
            Type::Boolean => to_owned_string("Boolean"),
        }
    }
}

/// `s` without its space characters (`' '` only).
pub open spec fn remove_spaces(s: Seq<char>) -> Seq<char>
    decreases s.len(),
{
    if s.len() == 0 {
        s
    } else if s.last() == ' ' {
        remove_spaces(s.drop_last())
    } else {
        remove_spaces(s.drop_last()).push(s.last())
    }
}

/// A numeric literal: digits, `.`, `-`, `e` and `E` only, and not empty.
pub open spec fn is_number(s: Seq<char>) -> bool {
    s.len() > 0 && forall|i: int| 0 <= i < s.len() ==> number_char(#[trigger] s[i])
}

pub open spec fn number_char(c: char) -> bool {
    ('0' <= c && c <= '9') || c == '.' || c == '-' || c == 'e' || c == 'E'
}

/// Closing minus opening parentheses in `s`.
pub open spec fn close_balance(s: Seq<char>) -> int
    decreases s.len(),
{
    if s.len() == 0 {
        0
    } else {
        close_balance(s.drop_last()) + if s.last() == ')' {
            1int
        } else if s.last() == '(' {
            -1int
        } else {
            0int
        }
    }
}

/// Position `i` holds an operator outside all parentheses (seen from the
/// right), and is not a leading minus sign.
pub open spec fn main_op_at(e: Seq<char>, i: int) -> bool {
    e[i] != ')' && e[i] != '(' && close_balance(e.skip(i + 1)) == 0 && is_op(e[i])
        && !(e[i] == '-' && i == 0)
}

/// The rightmost main operator, if any.
pub open spec fn main_op(e: Seq<char>) -> Option<int> {
    if exists|i: int| 0 <= i < e.len() && main_op_at(e, i) {
        Some(choose|i: int| 0 <= i < e.len() && main_op_at(e, i)
            && forall|j: int| i < j < e.len() ==> !main_op_at(e, j))
    } else {
        None
    }
}

/// The result type of a known function name (already lower-cased).
pub open spec fn function_type(f: Seq<char>) -> Type {
    if f == "sin"@ || f == "cos"@ || f == "tan"@ || f == "asin"@ || f == "acos"@ || f == "atan"@
        || f == "sinh"@ || f == "cosh"@ || f == "tanh"@ || f == "exp"@ || f == "log"@ || f == "ln"@
        || f == "log10"@ || f == "log2"@ || f == "sqrt"@ || f == "abs"@ {
        Type::Real
    } else if f == "sinv"@ || f == "cosv"@ || f == "tanv"@ {
        Type::Vector { len: 3 }
    } else if f == "matrix"@ || f == "mat"@ {
        Type::Matrix { rows: 0, cols: 0 }
    } else if f == "vector"@ || f == "vec"@ {
        Type::Vector { len: 0 }
    } else if f == "len"@ || f == "size"@ {
        Type::Integer
    } else if f == "det"@ || f == "inv"@ || f == "transpose"@ {
        Type::Matrix { rows: 0, cols: 0 }
    } else if f == "dot"@ || f == "cross"@ {
        Type::Real
    } else {
        Type::Unknown
    }
}

/// The type of `left op right`.
pub open spec fn binary_type(left: Type, right: Type, op: char) -> Result<Type, ValidationErrorView> {
    if op == '+' || op == '-' || op == '*' || op == '/' || op == '%' {
        if left is Matrix && right is Matrix {
            Ok(Type::Matrix { rows: 0, cols: 0 })
        } else if left is Vector && right is Vector {
            Ok(Type::Vector { len: 0 })
        } else if left == right {
            Ok(left)
        } else if (left == Type::Integer && right == Type::Real) || (left == Type::Real && right
            == Type::Integer) {
            Ok(Type::Real)
        } else if left == Type::Complex || right == Type::Complex {
            Ok(Type::Complex)
        } else {
            Err(type_mismatch_view(left.name(), right.name()))
        }
    } else if op == '^' {
        Ok(Type::Real)
    } else {
        Ok(Type::Unknown)
    }
}

/// The inferred type of a space-free expression.
pub open spec fn infer(e: Seq<char>) -> Result<Type, ValidationErrorView>
    decreases e.len(),
{
    if e.len() == 0 {
        Err(empty_expr_view())
    } else if is_number(e) {
        Ok(if e.contains('.') || e.contains('e') { Type::Real } else { Type::Integer })
    } else if e.last() == 'i' && e != seq!['i'] {
        Ok(Type::Complex)
    } else if e[0] == '(' && e.last() == ')' {
        infer(e.subrange(1, e.len() - 1))
    } else if e.contains('(') {
        let pos = choose|p: int| 0 <= p < e.len() && e[p] == '(' && forall|j: int| 0 <= j < p ==> e[j] != '(';
        Ok(function_type(lowercase(e.take(pos))))
    } else {
        match main_op(e) {
            Some(k) => {
                if 0 <= k < e.len() {
                    match infer(e.take(k)) {
                        Err(x) => Err(x),
                        Ok(l) => match infer(e.skip(k + 1)) {
                            Err(x) => Err(x),
                            Ok(r) => binary_type(l, r, e[k]),
                        },
                    }
                } else {
                    Ok(Type::Unknown)
                }
            },
            None => Ok(Type::Unknown),
        }
    }
}

/// The type of an expression: surrounding white space trimmed, spaces removed, then inferred.
pub open spec fn check_type(s: Seq<char>) -> Result<Type, ValidationErrorView> {
    infer(remove_spaces(trim(s)))
}

/// Type checker for expressions.
pub struct TypeChecker;

impl TypeChecker {
    pub fn new() -> Self {
        TypeChecker
    }

    /// Infers the type of `expr`.
    pub fn check(&self, expr: &str) -> (r: ValidationResult<Type>)
        ensures
            result_view(r) == check_type(expr@),
            r matches Err(e) ==> e.wf(),
    {
        let v = chars_of(expr);
        let (start, end) = trim_bounds(v.as_slice());
        let t = copy_range(v.as_slice(), start, end);
        let e = remove_spaces_vec(&t);
        self.infer_type(&e)
    }

    fn infer_type(&self, e: &Vec<char>) -> (r: ValidationResult<Type>)
        ensures
            result_view(r) == infer(e@),
            r matches Err(x) ==> x.wf(),
        decreases e@.len(),
    {
        let n = e.len();
        if n == 0 {
            return Err(empty_expr());
        }
        if Self::is_number(e) {
            let fractional = contains_char(e.as_slice(), '.') || contains_char(e.as_slice(), 'e');
            return Ok(if fractional { Type::Real } else { Type::Integer });
        }
        if e[n - 1] == 'i' && !(n == 1) {
            assert(e@ != seq!['i']);
            return Ok(Type::Complex);
        }
        assert(n == 1 && e@[0] == 'i' ==> e@ == seq!['i']);
        if e[0] == '(' && e[n - 1] == ')' {
            let inner = copy_range(e.as_slice(), 1, n - 1);
            return self.infer_type(&inner);
        }
        match first_open_paren(e) {
            Some(pos) => {
                let func = copy_range(e.as_slice(), 0, pos);
                assert(func@ =~= e@.take(pos as int));
                let ghost p = choose|p: int| 0 <= p < e@.len() && e@[p] == '(' && forall|j: int| 0 <= j < p ==> e@[j] != '(';
                assert(p == pos as int) by {
                    if p < pos {
                    } else if p > pos {
                    }
                }
                assert(e@.contains('('));
                return Ok(self.infer_function_type(&func));
            },
            None => {
                assert(!e@.contains('('));
            },
        }
        match Self::find_main_op(e) {
            Some(k) => {
                let left = copy_range(e.as_slice(), 0, k);
                let right = copy_range(e.as_slice(), k + 1, n);
                assert(left@ =~= e@.take(k as int));
                assert(right@ =~= e@.skip(k + 1));
                let lt = self.infer_type(&left)?;
                let rt = self.infer_type(&right)?;
                self.binary_op_type(&lt, &rt, e[k])
            },
            None => Ok(Type::Unknown),
        }
    }

    fn is_number(e: &Vec<char>) -> (r: bool)
        ensures
            r == is_number(e@),
    {
        if e.len() == 0 {
            return false;
        }
        let mut i: usize = 0;
        while i < e.len()
            invariant
                i <= e@.len(),
                forall|j: int| 0 <= j < i ==> number_char(#[trigger] e@[j]),
            decreases e@.len() - i,
        {
            let c = e[i];
            if !(('0' <= c && c <= '9') || c == '.' || c == '-' || c == 'e' || c == 'E') {
                assert(!number_char(e@[i as int]));
                return false;
            }
            i = i + 1;
        }
        true
    }

    /// The rightmost operator outside parentheses, not counting a leading minus.
    fn find_main_op(e: &Vec<char>) -> (r: Option<usize>)
        ensures
            match main_op(e@) {
                Some(k) => r == Some(k as usize) && 0 <= k < e@.len(),
                None => r is None,
            },
    {
        let ghost s = e@;
        let mut i = e.len();
        let mut depth: i128 = 0;
        assert(s.skip(i as int) =~= Seq::<char>::empty());
        while i > 0
            invariant
                s == e@,
                s.len() <= usize::MAX,
                i <= s.len(),
                depth == close_balance(s.skip(i as int)),
                -(s.len() as int) + i <= depth <= s.len() - i,
                forall|j: int| i <= j < s.len() ==> !main_op_at(s, j),
            decreases i,
        {
            let j = i - 1;
            let c = e[j];
            proof {
                lemma_close_balance_prepend(s, j as int);
            }
            if c == ')' {
                depth = depth + 1;
            } else if c == '(' {
                depth = depth - 1;
            } else if depth == 0 && char_is_operator(c) {
                if !(c == '-' && j == 0) {
                    assert(main_op_at(s, j as int));
                    proof {
                        let k = choose|k: int| 0 <= k < s.len() && main_op_at(s, k)
                            && forall|m: int| k < m < s.len() ==> !main_op_at(s, m);
                        assert(k == j as int) by {
                            if k < j {
                                assert(!main_op_at(s, j as int));
                            }
                        }
                    }
                    return Some(j);
                }
            }
            assert(!main_op_at(s, j as int));
            i = j;
        }
        assert(!(exists|k: int| 0 <= k < s.len() && main_op_at(s, k)));
        None
    }

    /// The result type of a function, by its lower-cased name.
    fn infer_function_type(&self, func: &Vec<char>) -> (t: Type)
        ensures
            t == function_type(lowercase(func@)),
    {
        let name = string_from_chars(func.as_slice());
        let lower = str_to_lowercase(name.as_str());
        let f = chars_of(lower.as_str());
        let f = f.as_slice();
        if chars_eq_str(f, "sin") || chars_eq_str(f, "cos") || chars_eq_str(f, "tan") || chars_eq_str(f, "asin")
            || chars_eq_str(f, "acos") || chars_eq_str(f, "atan") || chars_eq_str(f, "sinh") || chars_eq_str(f, "cosh")
            || chars_eq_str(f, "tanh") || chars_eq_str(f, "exp") || chars_eq_str(f, "log") || chars_eq_str(f, "ln")
            || chars_eq_str(f, "log10") || chars_eq_str(f, "log2") || chars_eq_str(f, "sqrt") || chars_eq_str(f, "abs") {
            Type::Real
        } else if chars_eq_str(f, "sinv") || chars_eq_str(f, "cosv") || chars_eq_str(f, "tanv") {
            Type::Vector { len: 3 }
        } else if chars_eq_str(f, "matrix") || chars_eq_str(f, "mat") {
            Type::Matrix { rows: 0, cols: 0 }
        } else if chars_eq_str(f, "vector") || chars_eq_str(f, "vec") {
            Type::Vector { len: 0 }
        } else if chars_eq_str(f, "len") || chars_eq_str(f, "size") {
            Type::Integer
        } else if chars_eq_str(f, "det") || chars_eq_str(f, "inv") || chars_eq_str(f, "transpose") {
            Type::Matrix { rows: 0, cols: 0 }
        } else if chars_eq_str(f, "dot") || chars_eq_str(f, "cross") {
            Type::Real
        } else {
            Type::Unknown
        }
    }

    /// The type of `left op right`, or a type mismatch.
    fn binary_op_type(&self, left: &Type, right: &Type, op: char) -> (r: ValidationResult<Type>)
        ensures
            result_view(r) == binary_type(*left, *right, op),
            r matches Err(x) ==> x.wf(),
    {
        if op == '+' || op == '-' || op == '*' || op == '/' || op == '%' {
            if let (Type::Matrix { .. }, Type::Matrix { .. }) = (left, right) {
                return Ok(Type::Matrix { rows: 0, cols: 0 });
            }
            if let (Type::Vector { .. }, Type::Vector { .. }) = (left, right) {
                return Ok(Type::Vector { len: 0 });
            }
            if *left == *right {
                return Ok(left.duplicate());
            }
            if (*left == Type::Integer && *right == Type::Real) || (*left == Type::Real && *right
                == Type::Integer) {
                return Ok(Type::Real);
            }
            if *left == Type::Complex || *right == Type::Complex {
                return Ok(Type::Complex);
            }
            let ls = left.to_string();
            let rs = right.to_string();
            Err(type_mismatch(ls.as_str(), rs.as_str()))
        } else if op == '^' {
            Ok(Type::Real)
        } else {
            Ok(Type::Unknown)
        }
    }
}

fn char_is_operator(c: char) -> (r: bool)
    ensures
        r == is_op(c),
{
    c == '+' || c == '-' || c == '*' || c == '/' || c == '^' || c == '%'
}

/// The index of the first `(`, if any.
fn first_open_paren(e: &Vec<char>) -> (r: Option<usize>)
    ensures
        match r {
            Some(p) => p < e@.len() && e@[p as int] == '(' && forall|j: int| 0 <= j < p ==> e@[j] != '(',
            None => !e@.contains('('),
        },
{
    let mut i: usize = 0;
    while i < e.len()
        invariant
            i <= e@.len(),
            forall|j: int| 0 <= j < i ==> e@[j] != '(',
        decreases e@.len() - i,
    {
        if e[i] == '(' {
            return Some(i);
        }
        i = i + 1;
    }
    None
}

proof fn lemma_close_balance_prepend(s: Seq<char>, j: int)
    requires
        0 <= j < s.len(),
    ensures
        close_balance(s.skip(j)) == close_balance(s.skip(j + 1)) + if s[j] == ')' {
            1int
        } else if s[j] == '(' {
            -1int
        } else {
            0int
        },
    decreases s.len() - j,
{
    if j == s.len() - 1 {
        assert(s.skip(j).drop_last() =~= Seq::<char>::empty());
        assert(s.skip(j + 1) =~= Seq::<char>::empty());
    } else {
        lemma_close_balance_prepend(s.drop_last(), j);
        assert(s.skip(j).drop_last() =~= s.drop_last().skip(j));
        assert(s.skip(j + 1).drop_last() =~= s.drop_last().skip(j + 1));
        assert(s.skip(j).last() == s.last());
        assert(s.skip(j + 1).last() == s.last());
    }
}

/// `v` without its space characters.
fn remove_spaces_vec(v: &Vec<char>) -> (r: Vec<char>)
    ensures
        r@ == remove_spaces(v@),
{
    let mut r: Vec<char> = Vec::new();
    let mut i: usize = 0;
    assert(v@.take(0) =~= Seq::<char>::empty());
    while i < v.len()
        invariant
            i <= v@.len(),
            r@ == remove_spaces(v@.take(i as int)),
        decreases v@.len() - i,
    {
        assert(v@.take(i + 1).drop_last() =~= v@.take(i as int));
        if v[i] != ' ' {
            r.push(v[i]);
        }
        i = i + 1;
    }
    assert(v@.take(v@.len() as int) =~= v@);
    r
}

} // verus!
