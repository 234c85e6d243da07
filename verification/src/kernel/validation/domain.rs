//! Domain and boundary checks: square roots and logarithms of non-positive
//! arguments, division by zero, negative and oversized factorials.

use vstd::prelude::*;
use crate::kernel::validation::types::{
    plain_error, ErrorCode, ValidationErrorView, ValidationResult, result_view,
};
use crate::kernel::validation::types::err::{
    division_by_zero, division_by_zero_view, domain_error, overflow,
};
use crate::pattern::{find_pattern, finds};
use crate::text::{
    chars_of, copy_range, find_chars, find_substring, lemma_first_index, occurs_at, occurs_pred,
    string_from_chars, trim, trim_bounds,
};

verus! {

/// `sqrt` of a negative literal, with optional white space.
pub open spec fn sqrt_pattern() -> Seq<char> {
    "sqrt\\s*\\(\\s*-\\s*[\\d.]+\\s*\\)"@
}

/// Division by a literal zero.
pub open spec fn division_pattern() -> Seq<char> {
    "/\\s*0(\\s|$|\\))"@
}

/// Remainder by a literal zero.
pub open spec fn modulo_pattern() -> Seq<char> {
    "%\\s*0(\\s|$|\\))"@
}

/// Factorial of a negative literal.
pub open spec fn negative_factorial_pattern() -> Seq<char> {
    "-\\d+!|!\\s*-\\d+"@
}

/// Factorial of a literal large enough to overflow.
pub open spec fn large_factorial_pattern() -> Seq<char> {
    "[2-9]\\d{2,}!|1[789]\\d{2,}!"@
}

/// What the regular expressions found in an expression.
pub struct DomainMatches {
    pub sqrt_negative: bool,
    pub division_by_zero: bool,
    pub modulo_by_zero: bool,
    pub negative_factorial: bool,
    pub large_factorial: bool,
}

/// The regular-expression findings for `s`.
pub open spec fn matches_of(s: Seq<char>) -> DomainMatches {
    DomainMatches {
        sqrt_negative: finds(sqrt_pattern(), s),
        division_by_zero: finds(division_pattern(), s),
        modulo_by_zero: finds(modulo_pattern(), s),
        negative_factorial: finds(negative_factorial_pattern(), s),
        large_factorial: finds(large_factorial_pattern(), s),
    }
}

/// For each logarithm `log(`, `ln(`, `log10(`, `log2(` (in this order), whether
/// its argument text reads as a number that is zero or negative.
pub struct LogLiterals {
    pub log: bool,
    pub ln: bool,
    pub log10: bool,
    pub log2: bool,
}

/// The opening text of the `k`-th logarithm.
pub open spec fn log_func(k: int) -> Seq<char> {
    if k == 0 {
        "log("@
    } else if k == 1 {
        "ln("@
    } else if k == 2 {
        "log10("@
    } else {
        "log2("@
    }
}

/// The (trimmed) argument of the first call of the `k`-th logarithm: the text
/// between its opening and the next `)`.
pub open spec fn log_arg(s: Seq<char>, k: int) -> Option<Seq<char>> {
    match find_substring(s, log_func(k)) {
        Some(st) => {
            let after = s.skip(st + log_func(k).len());
            match find_substring(after, seq![')']) {
                Some(e) => Some(trim(after.take(e))),
                None => None,
            }
        },
        None => None,
    }
}

pub open spec fn literal_flag(l: LogLiterals, k: int) -> bool {
    if k == 0 {
        l.log
    } else if k == 1 {
        l.ln
    } else if k == 2 {
        l.log10
    } else {
        l.log2
    }
}

/// The `k`-th logarithm's argument is flagged as a non-positive number, or starts with `-`.
pub open spec fn log_violation(s: Seq<char>, k: int, l: LogLiterals) -> bool {
    match log_arg(s, k) {
        Some(a) => literal_flag(l, k) || (a.len() > 0 && a[0] == '-'),
        None => false,
    }
}

/// `sqrt(-` followed by a non-empty argument before the next `)`.
pub open spec fn sqrt_negative_text(s: Seq<char>) -> bool {
    match find_substring(s, "sqrt(-"@) {
        Some(i) => match find_substring(s.skip(i + 5), seq![')']) {
            Some(e) => e > 1,
            None => false,
        },
        None => false,
    }
}

pub open spec fn sqrt_message() -> Seq<char> {
    "sqrt定义域: 不能对负数求平方根"@
}

pub open spec fn log_message() -> Seq<char> {
    "log定义域: 参数必须为正数"@
}

pub open spec fn factorial_message() -> Seq<char> {
    "阶乘定义域: 不能对负数求阶乘"@
}

pub open spec fn large_factorial_message() -> Seq<char> {
    "阶乘结果过大，会导致溢出"@
}

/// The domain checks in order (square root, logarithms, division, factorial)
/// given the regular-expression findings and the numeric reading of the
/// logarithm arguments.
pub open spec fn domain_check(s: Seq<char>, m: DomainMatches, l: LogLiterals) -> Result<(), ValidationErrorView> {
    if sqrt_negative_text(s) || m.sqrt_negative {
        Err(plain_error(ErrorCode::D001, sqrt_message()))
    } else if log_violation(s, 0, l) || log_violation(s, 1, l) || log_violation(s, 2, l)
        || log_violation(s, 3, l) {
        Err(plain_error(ErrorCode::D001, log_message()))
    } else if m.division_by_zero || m.modulo_by_zero {
        Err(division_by_zero_view())
    } else if m.negative_factorial {
        Err(plain_error(ErrorCode::D001, factorial_message()))
    } else if m.large_factorial {
        Err(plain_error(ErrorCode::O001, large_factorial_message()))
    } else {
        Ok(())
    }
}

/// The first occurrence of `needle` in `hay` is where `find_substring` finds it.
proof fn lemma_find_first(hay: Seq<char>, needle: Seq<char>, i: int)
    requires
        occurs_at(hay, needle, i),
        forall|j: int| 0 <= j < i ==> !occurs_at(hay, needle, j),
    ensures
        find_substring(hay, needle) == Some(i),
{
    assert forall|j: int| 0 <= j < i implies !#[trigger] occurs_pred(hay, needle)(j) by {}
    lemma_first_index(hay.len() as int + 1, occurs_pred(hay, needle), i);
}

/// A logarithm of a non-positive argument is refused. For any of the calls
/// `log(`, `ln(`, `log10(`, `log2(`: when the text's first such call starts
/// at `st`, its argument is closed by the first `)` after it (`e` characters
/// on), and that argument (trimmed) reads as a number at most zero or starts
/// with `-`, then, unless a square root of a negative number was found
/// first, the domain check fails with `D001` and the logarithm message.
pub proof fn lemma_log_domain_refused(s: Seq<char>, m: DomainMatches, l: LogLiterals, k: int, f: Seq<char>, st: int, e: int)
    requires
        (k == 0 && f == "log("@) || (k == 1 && f == "ln("@) || (k == 2 && f == "log10("@) || (k == 3 && f
            == "log2("@),
        occurs_at(s, f, st),
        forall|j: int| 0 <= j < st ==> !occurs_at(s, f, j),
        0 <= e < s.len() - (st + f.len()),
        s[st + f.len() + e] == ')',
        forall|j: int| st + f.len() <= j < st + f.len() + e ==> s[j] != ')',
        ({
            let arg = trim(s.subrange(st + f.len(), st + f.len() + e));
            ||| (k == 0 && l.log)
            ||| (k == 1 && l.ln)
            ||| (k == 2 && l.log10)
            ||| (k == 3 && l.log2)
            ||| (arg.len() > 0 && arg[0] == '-')
        }),
        !sqrt_negative_text(s),
        !m.sqrt_negative,
    ensures
        domain_check(s, m, l) == Err::<(), ValidationErrorView>(
            plain_error(ErrorCode::D001, "log定义域: 参数必须为正数"@),
        ),
{
    assert(log_func(k) == f);
    lemma_find_first(s, f, st);
    let after = s.skip(st + f.len());
    assert(after.len() == s.len() - (st + f.len()));
    assert(occurs_at(after, seq![')'], e)) by {
        assert(after.subrange(e, e + 1) =~= seq![')']);
    }
    assert forall|j: int| 0 <= j < e implies !occurs_at(after, seq![')'], j) by {
        if occurs_at(after, seq![')'], j) {
            assert(after.subrange(j, j + 1)[0] == ')');
            assert(after[j] == s[st + f.len() + j]);
            assert(s[st + f.len() + j] != ')');
        }
    }
    lemma_find_first(after, seq![')'], e);
    assert(after.take(e) =~= s.subrange(st + f.len(), st + f.len() + e));
    assert(log_arg(s, k) == Some(trim(after.take(e))));
    assert(log_violation(s, k, l));
}

/// A square root of a negative number is refused first: when the text's
/// first `sqrt(-` is followed by at least one character before the next `)`,
/// or the square-root pattern matched, the domain check fails with `D001`
/// and the square-root message, whatever else the text holds.
pub proof fn lemma_sqrt_domain_refused(s: Seq<char>, m: DomainMatches, l: LogLiterals, st: int, e: int)
    requires
        m.sqrt_negative || {
            &&& occurs_at(s, "sqrt(-"@, st)
            &&& forall|j: int| 0 <= j < st ==> !occurs_at(s, "sqrt(-"@, j)
            &&& 1 < e < s.len() - (st + 5)
            &&& s[st + 5 + e] == ')'
            &&& forall|j: int| st + 5 <= j < st + 5 + e ==> s[j] != ')'
        },
    ensures
        domain_check(s, m, l) == Err::<(), ValidationErrorView>(
            plain_error(ErrorCode::D001, "sqrt定义域: 不能对负数求平方根"@),
        ),
{
    if !m.sqrt_negative {
        reveal_strlit("sqrt(-");
        lemma_find_first(s, "sqrt(-"@, st);
        let after = s.skip(st + 5);
        assert(occurs_at(after, seq![')'], e)) by {
            assert(after.subrange(e, e + 1) =~= seq![')']);
        }
        assert forall|j: int| 0 <= j < e implies !occurs_at(after, seq![')'], j) by {
            if occurs_at(after, seq![')'], j) {
                assert(after.subrange(j, j + 1)[0] == ')');
                assert(after[j] == s[st + 5 + j]);
            }
        }
        lemma_find_first(after, seq![')'], e);
        assert(sqrt_negative_text(s));
    }
}

fn log_func_text(k: usize) -> (t: &'static str)
    requires
        k < 4,
    ensures
        t@ == log_func(k as int),
{
    if k == 0 {
        "log("
    } else if k == 1 {
        "ln("
    } else if k == 2 {
        "log10("
    } else {
        "log2("
    }
}

/// Domain checker for expressions.
pub struct DomainChecker;

impl DomainChecker {
    pub fn new() -> Self {
        DomainChecker
    }

    /// The trimmed argument text of the first call of the `k`-th logarithm
    /// (`log(`, `ln(`, `log10(`, `log2(`), when it is closed by a `)`.
    pub fn log_argument(&self, expr: &str, k: usize) -> (r: Option<String>)
        requires
            k < 4,
        ensures
            match log_arg(expr@, k as int) {
                Some(a) => r matches Some(x) && x@ == a,
                None => r is None,
            },
    {
        let s = chars_of(expr);
        let f = chars_of(log_func_text(k));
        let n = s.len();
        match find_chars(s.as_slice(), f.as_slice()) {
            Some(st) => {
                let after = copy_range(s.as_slice(), st + f.len(), n);
                assert(after@ =~= s@.skip(st + f@.len()));
                let close = chars_of(")");
                proof {
                    reveal_strlit(")");
                    assert(close@ =~= seq![')']);
                }
                match find_chars(after.as_slice(), close.as_slice()) {
                    Some(e) => {
                        let pre = copy_range(after.as_slice(), 0, e);
                        assert(pre@ =~= after@.take(e as int));
                        let (a, b) = trim_bounds(pre.as_slice());
                        let arg = copy_range(pre.as_slice(), a, b);
                        Some(string_from_chars(arg.as_slice()))
                    },
                    None => None,
                }
            },
            None => None,
        }
    }

    /// The domain checks in order given the regular-expression findings and
    /// the numeric reading of the logarithm arguments.
    pub fn check_given(&self, expr: &str, m: &DomainMatches, l: &LogLiterals) -> (r: ValidationResult<()>)
        ensures
            result_view(r) == domain_check(expr@, *m, *l),
            r matches Err(e) ==> e.wf(),
    {
        let s = chars_of(expr);
        if self.sqrt_negative_text(&s) || m.sqrt_negative {
            return Err(domain_error("sqrt定义域: 不能对负数求平方根"));
        }
        let mut k: usize = 0;
        while k < 4
            invariant
                s@ == expr@,
                k <= 4,
                !(sqrt_negative_text(expr@) || m.sqrt_negative),
                forall|j: int| 0 <= j < k ==> !log_violation(expr@, j, *l),
            decreases 4 - k,
        {
            let flag = if k == 0 { l.log } else if k == 1 { l.ln } else if k == 2 { l.log10 } else { l.log2 };
            match self.log_argument(expr, k) {
                Some(a) => {
                    let av = chars_of(a.as_str());
                    if flag || (av.len() > 0 && av[0] == '-') {
                        return Err(domain_error("log定义域: 参数必须为正数"));
                    }
                },
                None => {},
            }
            k = k + 1;
        }
        if m.division_by_zero || m.modulo_by_zero {
            return Err(division_by_zero());
        }
        if m.negative_factorial {
            return Err(domain_error("阶乘定义域: 不能对负数求阶乘"));
        }
        if m.large_factorial {
            return Err(overflow("阶乘结果过大，会导致溢出"));
        }
        Ok(())
    }

    /// Runs the regular expressions over `expr`.
    pub fn find_matches(&self, expr: &str) -> (m: DomainMatches)
        ensures
            m == matches_of(expr@),
    {
        DomainMatches {
            sqrt_negative: find_pattern("sqrt\\s*\\(\\s*-\\s*[\\d.]+\\s*\\)", expr),
            division_by_zero: find_pattern("/\\s*0(\\s|$|\\))", expr),
            modulo_by_zero: find_pattern("%\\s*0(\\s|$|\\))", expr),
            negative_factorial: find_pattern("-\\d+!|!\\s*-\\d+", expr),
            large_factorial: find_pattern("[2-9]\\d{2,}!|1[789]\\d{2,}!", expr),
        }
    }

    /// The domain checks in order (square root, logarithms, division,
    /// factorial), given the numeric reading of the logarithm arguments.
    pub fn check_with_literals(&self, expr: &str, l: &LogLiterals) -> (r: ValidationResult<()>)
        ensures
            result_view(r) == domain_check(expr@, matches_of(expr@), *l),
            r matches Err(e) ==> e.wf(),
    {
        let m = self.find_matches(expr);
        self.check_given(expr, &m, l)
    }

    fn sqrt_negative_text(&self, s: &Vec<char>) -> (r: bool)
        ensures
            r == sqrt_negative_text(s@),
    {
        let pat = chars_of("sqrt(-");
        let n = s.len();
        match find_chars(s.as_slice(), pat.as_slice()) {
            Some(i) => {
                proof {
                    reveal_strlit("sqrt(-");
                }
                let inner = copy_range(s.as_slice(), i + 5, n);
                assert(inner@ =~= s@.skip(i + 5));
                let close = chars_of(")");
                proof {
                    reveal_strlit(")");
                    assert(close@ =~= seq![')']);
                }
                assert(find_substring(s@, "sqrt(-"@) == Some(i as int));
                let r = find_chars(inner.as_slice(), close.as_slice());
                assert(find_substring(s@.skip(i + 5), seq![')']) == find_substring(inner@, close@));
                match r {
                    Some(e) => {
                        assert(find_substring(inner@, close@) == Some(e as int));
                        e > 1
                    },
                    None => false,
                }
            },
            None => false,
        }
    }
}

} // verus!
