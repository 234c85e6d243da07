//! Syntactic validation of expressions: emptiness, characters, parentheses
//! and operator placement.

use vstd::prelude::*;
use crate::kernel::validation::types::{ErrorCode, ValidationErrorView, ValidationResult, result_view};
use crate::kernel::validation::types::err::{
    consecutive_ops, consecutive_ops_view, empty_expr, empty_expr_view, invalid_char,
    invalid_char_view, trailing_op, trailing_op_view, unmatched_paren, unmatched_paren_view,
};
use crate::text::{
    byte_len, char_is_alphabetic, char_is_whitespace, char_utf8_len, chars_of, first_index,
    is_alphabetic, is_ascii_digit, is_white_space, lemma_first_index, lemma_first_index_props, lemma_utf8_len_prefix_bounded,
    lemma_utf8_len_take, string_of_char, trim, trim_bounds, trim_end, trim_end_len, utf8_len,
};

verus! {

/// The arithmetic operators `+ - * / ^ %`.
pub open spec fn is_op(c: char) -> bool {
    c == '+' || c == '-' || c == '*' || c == '/' || c == '^' || c == '%'
}

/// Characters an expression may contain.
pub open spec fn allowed_char(c: char) -> bool {
    is_white_space(c) || is_ascii_digit(c) || is_op(c) || c == '(' || c == ')' || c == '.'
        || c == 'i' || is_alphabetic(c)
}

/// Column (1-based, counted in bytes) of the character at index `i`.
pub open spec fn byte_col(s: Seq<char>, i: int) -> int {
    utf8_len(s.take(i)) as int + 1
}

/// Opening minus closing parentheses in `s`.
pub open spec fn paren_depth(s: Seq<char>) -> int
    decreases s.len(),
{
    if s.len() == 0 {
        0
    } else {
        paren_depth(s.drop_last()) + if s.last() == '(' {
            1int
        } else if s.last() == ')' {
            -1int
        } else {
            0int
        }
    }
}

/// `s` without its white space characters.
pub open spec fn without_ws(s: Seq<char>) -> Seq<char>
    decreases s.len(),
{
    if s.len() == 0 {
        s
    } else if is_white_space(s.last()) {
        without_ws(s.drop_last())
    } else {
        without_ws(s.drop_last()).push(s.last())
    }
}

/// Two adjacent operators, other than `--`.
pub open spec fn bad_pair(a: char, b: char) -> bool {
    is_op(a) && is_op(b) && !(a == '-' && b == '-')
}

/// Positions holding a character that is not allowed.
pub open spec fn bad_char_pred(s: Seq<char>) -> spec_fn(int) -> bool {
    |i: int| !allowed_char(s[i])
}

/// Positions where a `)` closes more than was opened.
pub open spec fn close_pred(s: Seq<char>) -> spec_fn(int) -> bool {
    |i: int| paren_depth(s.take(i + 1)) < 0
}

/// Positions starting a pair of adjacent operators other than `--`.
pub open spec fn pair_pred(w: Seq<char>) -> spec_fn(int) -> bool {
    |i: int| bad_pair(w[i], w[i + 1])
}

/// The blank-expression check.
pub open spec fn empty_check(s: Seq<char>) -> Option<ValidationErrorView> {
    if trim(s).len() == 0 { Some(empty_expr_view()) } else { None }
}

/// The first character that is not allowed, reported at its byte column.
pub open spec fn chars_check(s: Seq<char>) -> Option<ValidationErrorView> {
    let i = first_index(s.len() as int, bad_char_pred(s));
    if i < s.len() {
        Some(invalid_char_view(s[i], byte_col(s, i) as usize))
    } else {
        None
    }
}

/// A `)` that closes nothing is reported at its byte column; a `(` left open
/// is reported at the byte length of the expression.
pub open spec fn parens_check(s: Seq<char>) -> Option<ValidationErrorView> {
    let i = first_index(s.len() as int, close_pred(s));
    if i < s.len() {
        Some(unmatched_paren_view(byte_col(s, i) as usize))
    } else if paren_depth(s) > 0 {
        Some(unmatched_paren_view(utf8_len(s) as usize))
    } else {
        None
    }
}

/// The parenthesis check passes exactly when no prefix of the expression
/// closes more parentheses than it opens and the whole opens as many as it
/// closes.
pub proof fn lemma_parens_balanced(s: Seq<char>)
    ensures
        parens_check(s) is None <==> {
            &&& forall|i: int| 0 <= i <= s.len() ==> paren_depth(#[trigger] s.take(i)) >= 0
            &&& paren_depth(s) == 0
        },
{
    let p = close_pred(s);
    lemma_first_index_props(s.len() as int, p);
    let k = first_index(s.len() as int, p);
    assert(s.take(s.len() as int) =~= s);
    assert(s.take(0) =~= Seq::<char>::empty());
    if forall|i: int| 0 <= i <= s.len() ==> paren_depth(#[trigger] s.take(i)) >= 0 {
        if k < s.len() {
            assert(p(k));
            assert(paren_depth(s.take(k + 1)) >= 0);
        }
    } else {
        let i = choose|i: int| 0 <= i <= s.len() && paren_depth(#[trigger] s.take(i)) < 0;
        assert(i > 0);
        assert(p(i - 1));
        if k == s.len() {
            assert(!p(i - 1));
        }
    }
    if k == s.len() && s.len() > 0 {
        assert(!p(s.len() - 1));
        assert(s.take(s.len() - 1 + 1) =~= s);
    }
}

/// Dropping white space from a longer prefix extends what it gives for a
/// shorter one.
proof fn lemma_without_ws_prefix(s: Seq<char>, n: int, m: int)
    requires
        0 <= n <= m <= s.len(),
    ensures
        without_ws(s.take(n)).len() <= without_ws(s.take(m)).len(),
        without_ws(s.take(m)).take(without_ws(s.take(n)).len() as int) == without_ws(s.take(n)),
    decreases m - n,
{
    if n < m {
        lemma_without_ws_prefix(s, n, m - 1);
        assert(s.take(m).drop_last() =~= s.take(m - 1));
        let a = without_ws(s.take(n));
        let b = without_ws(s.take(m - 1));
        let c = without_ws(s.take(m));
        if !is_white_space(s[m - 1]) {
            assert(c == b.push(s[m - 1]));
            assert(c.take(a.len() as int) =~= b.take(a.len() as int));
        }
    } else {
        assert(without_ws(s.take(m)).take(without_ws(s.take(n)).len() as int) =~= without_ws(s.take(n)));
    }
}

/// White space between two positions adds nothing once dropped.
proof fn lemma_without_ws_spaces(s: Seq<char>, i: int, t: int)
    requires
        0 <= i < t <= s.len(),
        forall|k: int| i < k < t ==> is_white_space(#[trigger] s[k]),
    ensures
        without_ws(s.take(t)) == without_ws(s.take(i + 1)),
    decreases t - i,
{
    if t > i + 1 {
        lemma_without_ws_spaces(s, i, t - 1);
        assert(s.take(t).drop_last() =~= s.take(t - 1));
        assert(is_white_space(s[t - 1]));
    }
}

/// Two operators with only white space between them are adjacent once the
/// white space is dropped: an expression that passes the earlier checks but
/// holds such a pair (other than `--`) fails validation with `E004`.
pub proof fn lemma_spaced_operators_refused(s: Seq<char>, i: int, j: int)
    requires
        0 <= i < j < s.len(),
        s[i] == '+' || s[i] == '-' || s[i] == '*' || s[i] == '/' || s[i] == '^' || s[i] == '%',
        s[j] == '+' || s[j] == '-' || s[j] == '*' || s[j] == '/' || s[j] == '^' || s[j] == '%',
        !(s[i] == '-' && s[j] == '-'),
        forall|k: int| i < k < j ==> is_white_space(#[trigger] s[k]),
        empty_check(s) is None,
        chars_check(s) is None,
        parens_check(s) is None,
    ensures
        parser_check(s) matches Err(e) && e.code == ErrorCode::E004,
{
    assert(s.take(i + 1).drop_last() =~= s.take(i));
    assert(s.take(j + 1).drop_last() =~= s.take(j));
    let a = without_ws(s.take(i + 1));
    assert(a == without_ws(s.take(i)).push(s[i]));
    lemma_without_ws_spaces(s, i, j);
    let b = without_ws(s.take(j + 1));
    assert(b == a.push(s[j]));
    lemma_without_ws_prefix(s, j + 1, s.len() as int);
    assert(s.take(s.len() as int) =~= s);
    let w = without_ws(s);
    let p = a.len() - 1;
    assert(w[p] == b[p]);
    assert(w[p + 1] == b[p + 1]);
    assert(pair_pred(w)(p));
    lemma_first_index_props(w.len() - 1, pair_pred(w));
    let q = first_index(w.len() - 1, pair_pred(w));
    if q > p {
        assert(!pair_pred(w)(p));
    }
}

/// The first pair of adjacent operators (white space ignored), other than `--`.
pub open spec fn operators_check(s: Seq<char>) -> Option<ValidationErrorView> {
    let w = without_ws(s);
    let i = first_index(w.len() - 1, pair_pred(w));
    if i < w.len() - 1 {
        Some(consecutive_ops_view(seq![w[i]], seq![w[i + 1]]))
    } else {
        None
    }
}

/// An operator as the last character (trailing white space ignored).
pub open spec fn trailing_check(s: Seq<char>) -> Option<ValidationErrorView> {
    let t = trim_end(s);
    if t.len() > 0 && is_op(t.last()) {
        Some(trailing_op_view(seq![t.last()]))
    } else {
        None
    }
}

/// The checks in order; the first failing one decides.
pub open spec fn parser_check(s: Seq<char>) -> Result<(), ValidationErrorView> {
    if let Some(e) = empty_check(s) {
        Err(e)
    } else if let Some(e) = chars_check(s) {
        Err(e)
    } else if let Some(e) = parens_check(s) {
        Err(e)
    } else if let Some(e) = operators_check(s) {
        Err(e)
    } else if let Some(e) = trailing_check(s) {
        Err(e)
    } else {
        Ok(())
    }
}

fn char_is_op(c: char) -> (r: bool)
    ensures
        r == is_op(c),
{
    c == '+' || c == '-' || c == '*' || c == '/' || c == '^' || c == '%'
}

/// Syntactic validator for expressions.
pub struct ParserValidator;

impl ParserValidator {
    pub fn new() -> Self {
        ParserValidator
    }

    /// Runs the checks in order (blank, characters, parentheses, operators,
    /// trailing operator) and reports the first failure.
    pub fn validate(&self, expr: &str) -> (r: ValidationResult<()>)
        ensures
            result_view(r) == parser_check(expr@),
            r matches Err(e) ==> e.wf(),
    {
        let v = chars_of(expr);
        self.validate_empty(&v)?;
        let len = byte_len(expr);
        self.validate_chars(&v, len)?;
        self.check_parentheses(&v, len)?;
        self.validate_operators(&v)?;
        self.validate_trailing(&v)?;
        Ok(())
    }

    fn validate_empty(&self, v: &Vec<char>) -> (r: ValidationResult<()>)
        ensures
            match empty_check(v@) {
                Some(e) => r matches Err(x) && x@ == e && x.wf(),
                None => r is Ok,
            },
    {
        let (start, end) = trim_bounds(v.as_slice());
        if start == end {
            return Err(empty_expr());
        }
        Ok(())
    }

    fn validate_chars(&self, v: &Vec<char>, len: usize) -> (r: ValidationResult<()>)
        requires
            len == utf8_len(v@),
        ensures
            match chars_check(v@) {
                Some(e) => r matches Err(x) && x@ == e && x.wf(),
                None => r is Ok,
            },
    {
        let ghost s = v@;
        let ghost p = bad_char_pred(s);
        let mut i: usize = 0;
        let mut col: usize = 0;
        proof {
            lemma_utf8_len_prefix_bounded(s, 0);
            assert(s.take(0) =~= Seq::<char>::empty());
        }
        while i < v.len()
            invariant
                s == v@,
                i <= s.len(),
                col == utf8_len(s.take(i as int)),
                utf8_len(s) <= usize::MAX,
                p == bad_char_pred(s),
                forall|j: int| 0 <= j < i ==> !#[trigger] p(j),
            decreases s.len() - i,
        {
            let c = v[i];
            let ok = char_is_whitespace(c) || ('0' <= c && c <= '9') || char_is_op(c) || c == '('
                || c == ')' || c == '.' || c == 'i' || char_is_alphabetic(c);
            proof {
                lemma_utf8_len_take(s, i as int);
                lemma_utf8_len_prefix_bounded(s, i + 1);
            }
            assert(ok == allowed_char(s[i as int]));
            if !ok {
                proof {
                    assert(p(i as int));
                    lemma_first_index(s.len() as int, p, i as int);
                }
                return Err(invalid_char(c, col + 1));
            }
            assert(!p(i as int));
            col = col + char_utf8_len(c);
            i = i + 1;
        }
        proof {
            lemma_first_index(s.len() as int, p, s.len() as int);
        }
        Ok(())
    }

    /// The parenthesis check: a `)` that closes nothing is reported at its
    /// byte column, a `(` left open at the byte length of the expression.
    pub fn validate_parentheses(&self, expr: &str) -> (r: ValidationResult<()>)
        ensures
            match parens_check(expr@) {
                Some(e) => r matches Err(x) && x@ == e && x.wf(),
                None => r is Ok,
            },
    {
        let v = chars_of(expr);
        let len = byte_len(expr);
        self.check_parentheses(&v, len)
    }

    fn check_parentheses(&self, v: &Vec<char>, len: usize) -> (r: ValidationResult<()>)
        requires
            len == utf8_len(v@),
        ensures
            match parens_check(v@) {
                Some(e) => r matches Err(x) && x@ == e && x.wf(),
                None => r is Ok,
            },
    {
        let ghost s = v@;
        let ghost p = close_pred(s);
        let mut depth: usize = 0;
        let mut i: usize = 0;
        let mut col: usize = 0;
        proof {
            assert(s.take(0) =~= Seq::<char>::empty());
        }
        while i < v.len()
            invariant
                s == v@,
                i <= s.len(),
                len == utf8_len(s),
                col == utf8_len(s.take(i as int)),
                p == close_pred(s),
                depth == paren_depth(s.take(i as int)),
                depth <= i,
                forall|j: int| 0 <= j < i ==> !#[trigger] p(j),
            decreases s.len() - i,
        {
            let c = v[i];
            proof {
                lemma_utf8_len_take(s, i as int);
                lemma_utf8_len_prefix_bounded(s, i + 1);
                assert(s.take(i + 1).drop_last() =~= s.take(i as int));
            }
            if c == '(' {
                depth = depth + 1;
            } else if c == ')' {
                if depth == 0 {
                    proof {
                        assert(paren_depth(s.take(i + 1)) == -1);
                        assert(p(i as int));
                        lemma_first_index(s.len() as int, p, i as int);
                    }
                    return Err(unmatched_paren(col + 1));
                }
                depth = depth - 1;
            }
            assert(!p(i as int));
            col = col + char_utf8_len(c);
            i = i + 1;
        }
        proof {
            lemma_first_index(s.len() as int, p, s.len() as int);
            assert(s.take(s.len() as int) =~= s);
        }
        if depth > 0 {
            return Err(unmatched_paren(len));
        }
        Ok(())
    }

    fn validate_operators(&self, v: &Vec<char>) -> (r: ValidationResult<()>)
        ensures
            match operators_check(v@) {
                Some(e) => r matches Err(x) && x@ == e && x.wf(),
                None => r is Ok,
            },
    {
        let ghost s = v@;
        let mut w: Vec<char> = Vec::new();
        let mut k: usize = 0;
        proof {
            assert(s.take(0) =~= Seq::<char>::empty());
        }
        while k < v.len()
            invariant
                s == v@,
                k <= s.len(),
                w@ == without_ws(s.take(k as int)),
                w@.len() <= k,
            decreases s.len() - k,
        {
            proof {
                assert(s.take(k + 1).drop_last() =~= s.take(k as int));
            }
            if !char_is_whitespace(v[k]) {
                w.push(v[k]);
            }
            k = k + 1;
        }
        proof {
            assert(s.take(s.len() as int) =~= s);
        }
        let ghost ws = w@;
        let ghost p = pair_pred(ws);
        if w.len() < 2 {
            assert(first_index(ws.len() - 1, p) == ws.len() - 1);
            return Ok(());
        }
        let mut i: usize = 0;
        while i < w.len() - 1
            invariant
                ws == w@,
                ws == without_ws(v@),
                p == pair_pred(ws),
                w@.len() >= 2,
                i + 1 <= w@.len(),
                forall|j: int| 0 <= j < i ==> !#[trigger] p(j),
            decreases w@.len() - i,
        {
            let curr = w[i];
            let next = w[i + 1];
            if char_is_op(curr) && char_is_op(next) {
                if curr != '-' || next != '-' {
                    proof {
                        assert(p(i as int));
                        lemma_first_index(ws.len() - 1, p, i as int);
                    }
                    let sa = string_of_char(curr);
                    let sb = string_of_char(next);
                    return Err(consecutive_ops(sa.as_str(), sb.as_str()));
                }
            }
            assert(!p(i as int));
            i = i + 1;
        }
        proof {
            lemma_first_index(ws.len() - 1, p, ws.len() - 1);
        }
        Ok(())
    }

    fn validate_trailing(&self, v: &Vec<char>) -> (r: ValidationResult<()>)
        ensures
            match trailing_check(v@) {
                Some(e) => r matches Err(x) && x@ == e && x.wf(),
                None => r is Ok,
            },
    {
        let end = trim_end_len(v.as_slice());
        if end > 0 {
            let c = v[end - 1];
            if char_is_op(c) {
                let sa = string_of_char(c);
                return Err(trailing_op(sa.as_str()));
            }
        }
        Ok(())
    }
}

} // verus!
