//! The command-line front end: its errors and the reading of `NAME=VALUE`
//! variable assignments.

use vstd::prelude::*;
use crate::text::{
    chars_of, copy_range, first_index, lemma_first_index, prefixed, string_from_chars, string_push_str,
    to_owned_string, trim, trim_bounds,
};

verus! {

/// Errors of the command-line front end.
#[derive(Debug, Clone)]
pub enum Error {
    Parse(String),
    Execution(String),
    InvalidArgument(String),
}

/// The displayed message of a command-line error.
pub open spec fn cli_error_text(e: Error) -> Seq<char> {
    match e {
        Error::Parse(m) => "Parse error: "@ + m@,
        Error::Execution(m) => "Execution error: "@ + m@,
        Error::InvalidArgument(m) => "Invalid argument: "@ + m@,
    }
}

impl Error {
    /// The displayed message, such as `Invalid argument: ...`.
    pub fn to_string(&self) -> (r: String)
        ensures
            r@ == cli_error_text(*self),
    {
        match self {
            Error::Parse(m) => prefixed("Parse error: ", m),
            Error::Execution(m) => prefixed("Execution error: ", m),
            Error::InvalidArgument(m) => prefixed("Invalid argument: ", m),
        }
    }
}

/// Errors of the command-line front end, as plain values.
pub enum ErrorView {
    Parse(Seq<char>),
    Execution(Seq<char>),
    InvalidArgument(Seq<char>),
}

impl View for Error {
    type V = ErrorView;

    open spec fn view(&self) -> ErrorView {
        match self {
            Error::Parse(m) => ErrorView::Parse(m@),
            Error::Execution(m) => ErrorView::Execution(m@),
            Error::InvalidArgument(m) => ErrorView::InvalidArgument(m@),
        }
    }
}

/// The position of the first `=` in `s`, or `s.len()`.
pub open spec fn first_equals(s: Seq<char>) -> int {
    first_index(s.len() as int, |i: int| s[i] == '=')
}

/// How an assignment splits: at the first `=` into the name, without
/// surrounding white space, and the value text after it. Without `=`, or
/// with an empty name, it is an invalid argument.
pub open spec fn assignment_split(s: Seq<char>) -> Result<(Seq<char>, Seq<char>), ErrorView> {
    let k = first_equals(s);
    if k == s.len() {
        Err(ErrorView::InvalidArgument("Invalid variable format: '"@ + s + "'. Expected NAME=VALUE"@))
    } else if trim(s.take(k)).len() == 0 {
        Err(ErrorView::InvalidArgument("Invalid variable format: '"@ + s + "'. Name cannot be empty"@))
    } else {
        Ok((trim(s.take(k)), s.skip(k + 1)))
    }
}

/// Splits a `NAME=VALUE` assignment into the trimmed name and the value
/// text, which the caller converts to a number.
pub fn split_assignment(var: &str) -> (r: Result<(String, String), Error>)
    ensures
        match r {
            Ok((name, value)) => assignment_split(var@) == Ok::<(Seq<char>, Seq<char>), ErrorView>(
                (name@, value@),
            ),
            Err(e) => assignment_split(var@) == Err::<(Seq<char>, Seq<char>), ErrorView>(e@),
        },
{
    let v = chars_of(var);
    let n = v.len();
    let mut k: usize = 0;
    while k < n && v[k] != '='
        invariant
            k <= n,
            n == v@.len(),
            forall|j: int| 0 <= j < k ==> v@[j] != '=',
        decreases n - k,
    {
        k = k + 1;
    }
    proof {
        lemma_first_index(v@.len() as int, |i: int| v@[i] == '=', k as int);
    }
    if k == n {
        let mut m = to_owned_string("Invalid variable format: '");
        string_push_str(&mut m, var);
        string_push_str(&mut m, "'. Expected NAME=VALUE");
        return Err(Error::InvalidArgument(m));
    }
    let head = copy_range(v.as_slice(), 0, k);
    assert(head@ =~= v@.take(k as int));
    let (a, b) = trim_bounds(head.as_slice());
    if a == b {
        let mut m = to_owned_string("Invalid variable format: '");
        string_push_str(&mut m, var);
        string_push_str(&mut m, "'. Name cannot be empty");
        return Err(Error::InvalidArgument(m));
    }
    let name = string_from_chars(copy_range(head.as_slice(), a, b).as_slice());
    let value = string_from_chars(copy_range(v.as_slice(), k + 1, n).as_slice());
    assert(v@.subrange(k + 1, n as int) =~= v@.skip(k + 1));
    Ok((name, value))
}

} // verus!
