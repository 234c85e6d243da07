//! Input validation that guards the engines against malformed or oversized
//! input: expressions and variable names.

use vstd::prelude::*;
use crate::text::{
    byte_len, char_is_alphabetic, char_utf8_len, chars_of, contains_char, decimal, first_index,
    is_alphabetic, is_ascii_digit, is_ascii_letter, lemma_first_index, lemma_first_index_props, lemma_utf8_len_prefix_bounded, lemma_utf8_len_take,
    push_decimal, string_push, string_push_str, to_owned_string, utf8_len,
};

verus! {

/// The longest expression accepted, in bytes (1 MiB).
pub const MAX_EXPRESSION_LENGTH: usize = 1_048_576;

/// The longest variable name accepted, in bytes.
pub const MAX_VARIABLE_NAME_LENGTH: usize = 256;

/// The most variables accepted at once.
pub const MAX_VARIABLES_COUNT: usize = 1000;

/// The characters an expression may hold: ASCII letters and digits,
/// operators, brackets, separators, white space and common math symbols.
pub const VALID_EXPRESSION_CHARS: &'static str = "0123456789abcdefghijklmnopqrstuvwxyzABCDEFGHIJKLMNOPQRSTUVWXYZ+-*/^()[]{}.,= _\t\n\rπθαβγδεζηικλμνξρστυφχψω∞∫∂∇√∑∏";

/// The characters a variable name may hold: ASCII letters, digits and `_`.
pub const VALID_VARIABLE_NAME_CHARS: &'static str = "abcdefghijklmnopqrstuvwxyzABCDEFGHIJKLMNOPQRSTUVWXYZ_0123456789";

/// Validation errors, as plain values.
pub enum ValidationErrorView {
    TooLong { max: usize, actual: usize, context: Seq<char> },
    InvalidCharacters { position: usize, ch: char, context: Seq<char> },
    EmptyInput { context: Seq<char> },
    TooManyVariables { max: usize, actual: usize },
    InvalidVariableName { name: Seq<char>, reason: Seq<char> },
}

/// Validation errors.
#[derive(Debug, Clone, PartialEq)]
pub enum ValidationError {
    /// Input exceeds the maximum length.
    TooLong { max: usize, actual: usize, context: String },
    /// Input contains an invalid character at a byte position.
    InvalidCharacters { position: usize, char: char, context: String },
    /// Input is empty.
    EmptyInput { context: String },
    /// Too many variables.
    TooManyVariables { max: usize, actual: usize },
    /// Invalid variable name.
    InvalidVariableName { name: String, reason: String },
}

impl View for ValidationError {
    type V = ValidationErrorView;

    open spec fn view(&self) -> ValidationErrorView {
        match self {
            ValidationError::TooLong { max, actual, context } => ValidationErrorView::TooLong {
                max: *max,
                actual: *actual,
                context: context@,
            },
            ValidationError::InvalidCharacters { position, char, context } => ValidationErrorView::InvalidCharacters {
                position: *position,
                ch: *char,
                context: context@,
            },
            ValidationError::EmptyInput { context } => ValidationErrorView::EmptyInput { context: context@ },
            ValidationError::TooManyVariables { max, actual } => ValidationErrorView::TooManyVariables {
                max: *max,
                actual: *actual,
            },
            ValidationError::InvalidVariableName { name, reason } => ValidationErrorView::InvalidVariableName {
                name: name@,
                reason: reason@,
            },
        }
    }
}

/// The displayed message of a validation error.
pub open spec fn validation_message(e: ValidationErrorView) -> Seq<char> {
    match e {
        ValidationErrorView::TooLong { max, actual, context } => context + ": input too long (max "@ + decimal(
            max as nat,
        ) + ", actual "@ + decimal(actual as nat) + ")"@,
        ValidationErrorView::InvalidCharacters { position, ch, context } => context
            + ": invalid character '"@ + seq![ch] + "' at position "@ + decimal(position as nat),
        ValidationErrorView::EmptyInput { context } => context + ": input cannot be empty"@,
        ValidationErrorView::TooManyVariables { max, actual } => "Too many variables: max "@ + decimal(
            max as nat,
        ) + ", actual "@ + decimal(actual as nat),
        ValidationErrorView::InvalidVariableName { name, reason } => "Invalid variable name '"@ + name
            + "': "@ + reason,
    }
}

impl ValidationError {
    /// The displayed message, such as `Expression: input cannot be empty`.
    pub fn to_string(&self) -> (r: String)
        ensures
            r@ == validation_message(self@),
    {
        match self {
            ValidationError::TooLong { max, actual, context } => {
                let mut r = context.clone();
                string_push_str(&mut r, ": input too long (max ");
                push_decimal(&mut r, *max as u64);
                string_push_str(&mut r, ", actual ");
                push_decimal(&mut r, *actual as u64);
                string_push_str(&mut r, ")");
                r
            },
            ValidationError::InvalidCharacters { position, char, context } => {
                let mut r = context.clone();
                string_push_str(&mut r, ": invalid character '");
                string_push(&mut r, *char);
                string_push_str(&mut r, "' at position ");
                push_decimal(&mut r, *position as u64);
                proof {
                    assert(seq![*char] =~= Seq::<char>::empty().push(*char));
                }
                r
            },
            ValidationError::EmptyInput { context } => {
                let mut r = context.clone();
                string_push_str(&mut r, ": input cannot be empty");
                r
            },
            ValidationError::TooManyVariables { max, actual } => {
                let mut r = to_owned_string("Too many variables: max ");
                push_decimal(&mut r, *max as u64);
                string_push_str(&mut r, ", actual ");
                push_decimal(&mut r, *actual as u64);
                r
            },
            ValidationError::InvalidVariableName { name, reason } => {
                let mut r = to_owned_string("Invalid variable name '");
                string_push_str(&mut r, name.as_str());
                string_push_str(&mut r, "': ");
                string_push_str(&mut r, reason.as_str());
                r
            },
        }
    }
}

/// The positions of `s` whose character is not in `allowed`.
pub open spec fn disallowed_at(s: Seq<char>, allowed: Seq<char>) -> spec_fn(int) -> bool {
    |i: int| !allowed.contains(s[i])
}

/// The position of the first character of `s` that is not in `allowed`, or `s.len()`.
pub open spec fn first_bad(s: Seq<char>, allowed: Seq<char>) -> int {
    first_index(s.len() as int, disallowed_at(s, allowed))
}

/// What validating an expression gives.
pub open spec fn expression_check(s: Seq<char>) -> Result<(), ValidationErrorView> {
    let k = first_bad(s, VALID_EXPRESSION_CHARS@);
    if s.len() == 0 {
        Err(ValidationErrorView::EmptyInput { context: "Expression"@ })
    } else if utf8_len(s) > MAX_EXPRESSION_LENGTH {
        Err(
            ValidationErrorView::TooLong {
                max: MAX_EXPRESSION_LENGTH,
                actual: utf8_len(s) as usize,
                context: "Expression"@,
            },
        )
    } else if k < s.len() {
        Err(
            ValidationErrorView::InvalidCharacters {
                position: utf8_len(s.take(k)) as usize,
                ch: s[k],
                context: "Expression"@,
            },
        )
    } else {
        Ok(())
    }
}

/// What validating a variable name gives.
pub open spec fn variable_name_check(s: Seq<char>) -> Result<(), ValidationErrorView> {
    let k = first_bad(s, VALID_VARIABLE_NAME_CHARS@);
    if s.len() == 0 {
        Err(ValidationErrorView::InvalidVariableName { name: s, reason: "name cannot be empty"@ })
    } else if utf8_len(s) > MAX_VARIABLE_NAME_LENGTH {
        Err(ValidationErrorView::InvalidVariableName { name: s, reason: "name too long (max 256)"@ })
    } else if !is_alphabetic(s[0]) && s[0] != '_' {
        Err(
            ValidationErrorView::InvalidVariableName {
                name: s,
                reason: "name must start with a letter or underscore"@,
            },
        )
    } else if k < s.len() {
        Err(
            ValidationErrorView::InvalidVariableName {
                name: s,
                reason: "invalid character '"@ + seq![s[k]] + "' at position "@ + decimal(
                    utf8_len(s.take(k)),
                ),
            },
        )
    } else {
        Ok(())
    }
}

/// A validation outcome as plain values.
pub open spec fn check_view(r: Result<(), ValidationError>) -> Result<(), ValidationErrorView> {
    match r {
        Ok(()) => Ok(()),
        Err(e) => Err(e@),
    }
}

/// The first character of `v` that is not in `allowed`, and its byte offset.
fn find_disallowed(v: &Vec<char>, allowed: &Vec<char>) -> (r: (usize, usize))
    requires
        utf8_len(v@) <= usize::MAX,
    ensures
        r.0 == first_bad(v@, allowed@),
        r.0 <= v@.len(),
        r.1 == utf8_len(v@.take(r.0 as int)),
{
    let mut i: usize = 0;
    let mut bytes: usize = 0;
    while i < v.len()
        invariant
            i <= v@.len(),
            forall|j: int| 0 <= j < i ==> !#[trigger] disallowed_at(v@, allowed@)(j),
            bytes == utf8_len(v@.take(i as int)),
            utf8_len(v@) <= usize::MAX,
        decreases v@.len() - i,
    {
        let c = v[i];
        if !contains_char(allowed.as_slice(), c) {
            proof {
                lemma_first_index(v@.len() as int, disallowed_at(v@, allowed@), i as int);
            }
            return (i, bytes);
        }
        proof {
            lemma_utf8_len_take(v@, i as int);
            lemma_utf8_len_prefix_bounded(v@, i + 1);
        }
        bytes = bytes + char_utf8_len(c);
        i = i + 1;
    }
    proof {
        lemma_first_index(v@.len() as int, disallowed_at(v@, allowed@), i as int);
    }
    (i, bytes)
}

/// Validates an expression: it must be non-empty, at most
/// [`MAX_EXPRESSION_LENGTH`] bytes long, and made of
/// [`VALID_EXPRESSION_CHARS`]; the first offending character is reported
/// with its byte position.
pub fn validate_expression(expression: &str) -> (r: Result<(), ValidationError>)
    ensures
        check_view(r) == expression_check(expression@),
{
    let chars = chars_of(expression);
    if chars.len() == 0 {
        return Err(ValidationError::EmptyInput { context: to_owned_string("Expression") });
    }
    let len = byte_len(expression);
    if len > MAX_EXPRESSION_LENGTH {
        return Err(
            ValidationError::TooLong {
                max: MAX_EXPRESSION_LENGTH,
                actual: len,
                context: to_owned_string("Expression"),
            },
        );
    }
    let allowed = chars_of(VALID_EXPRESSION_CHARS);
    let (k, position) = find_disallowed(&chars, &allowed);
    if k < chars.len() {
        return Err(
            ValidationError::InvalidCharacters {
                position,
                char: chars[k],
                context: to_owned_string("Expression"),
            },
        );
    }
    Ok(())
}

/// Validates a variable name: it must be non-empty, at most
/// [`MAX_VARIABLE_NAME_LENGTH`] bytes long, start with a letter or `_`, and
/// be made of [`VALID_VARIABLE_NAME_CHARS`].
pub fn validate_variable_name(name: &str) -> (r: Result<(), ValidationError>)
    ensures
        check_view(r) == variable_name_check(name@),
{
    let chars = chars_of(name);
    if chars.len() == 0 {
        return Err(
            ValidationError::InvalidVariableName {
                name: to_owned_string(name),
                reason: to_owned_string("name cannot be empty"),
            },
        );
    }
    if byte_len(name) > MAX_VARIABLE_NAME_LENGTH {
        let mut reason = to_owned_string("name too long (max ");
        push_decimal(&mut reason, MAX_VARIABLE_NAME_LENGTH as u64);
        string_push_str(&mut reason, ")");
        proof {
            reveal_strlit("name too long (max ");
            reveal_strlit(")");
            reveal_strlit("name too long (max 256)");
            reveal_with_fuel(decimal, 3);
            assert(decimal(256) =~= seq!['2', '5', '6']);
            assert(reason@ =~= "name too long (max 256)"@);
        }
        return Err(ValidationError::InvalidVariableName { name: to_owned_string(name), reason });
    }
    let first = chars[0];
    if !char_is_alphabetic(first) && first != '_' {
        return Err(
            ValidationError::InvalidVariableName {
                name: to_owned_string(name),
                reason: to_owned_string("name must start with a letter or underscore"),
            },
        );
    }
    let allowed = chars_of(VALID_VARIABLE_NAME_CHARS);
    let (k, position) = find_disallowed(&chars, &allowed);
    if k < chars.len() {
        let c = chars[k];
        let mut reason = to_owned_string("invalid character '");
        let ghost head = reason@;
        string_push(&mut reason, c);
        assert(reason@ =~= head + seq![c]);
        string_push_str(&mut reason, "' at position ");
        push_decimal(&mut reason, position as u64);
        assert(reason@ =~= "invalid character '"@ + seq![c] + "' at position "@ + decimal(position as nat));
        return Err(ValidationError::InvalidVariableName { name: to_owned_string(name), reason });
    }
    Ok(())
}

/// The characters of a variable name are exactly the ASCII letters, the
/// digits and `_`.
pub proof fn lemma_name_chars(c: char)
    ensures
        VALID_VARIABLE_NAME_CHARS@.contains(c) <==> (is_ascii_letter(c) || is_ascii_digit(c) || c == '_'),
{
    reveal_strlit("abcdefghijklmnopqrstuvwxyzABCDEFGHIJKLMNOPQRSTUVWXYZ_0123456789");
    let a = VALID_VARIABLE_NAME_CHARS@;
    assert(a.len() == 63);
    assert(forall|k: int| 0 <= k < 26 ==> #[trigger] a[k] == ((97 + k) as char));
    assert(forall|k: int| 26 <= k < 52 ==> #[trigger] a[k] == ((65 + k - 26) as char));
    assert(a[52] == '_');
    assert(forall|k: int| 53 <= k < 63 ==> #[trigger] a[k] == ((48 + k - 53) as char));
    if a.contains(c) {
        let k = choose|k: int| 0 <= k < a.len() && a[k] == c;
        assert(a[k] == c);
    }
    if is_ascii_letter(c) || is_ascii_digit(c) || c == '_' {
        let k: int = if 'a' <= c && c <= 'z' {
            c as int - 97
        } else if 'A' <= c && c <= 'Z' {
            c as int - 65 + 26
        } else if c == '_' {
            52
        } else {
            c as int - 48 + 53
        };
        assert(a[k] == c);
    }
}

/// A variable name is accepted exactly when it is 1 to 256 bytes long,
/// made of ASCII letters, digits and `_`, and starts with a letter or `_`.
/// (A letter beyond ASCII passes the first test but not the second.)
pub proof fn lemma_variable_name_accepted(s: Seq<char>)
    ensures
        variable_name_check(s) is Ok <==> {
            &&& 0 < s.len()
            &&& utf8_len(s) <= MAX_VARIABLE_NAME_LENGTH
            &&& (is_ascii_letter(s[0]) || s[0] == '_')
            &&& forall|i: int| 0 <= i < s.len() ==> (is_ascii_letter(#[trigger] s[i]) || is_ascii_digit(s[i]) || s[i] == '_')
        },
{
    let allowed = VALID_VARIABLE_NAME_CHARS@;
    let p = disallowed_at(s, allowed);
    lemma_first_index_props(s.len() as int, p);
    let k = first_bad(s, allowed);
    if forall|i: int| 0 <= i < s.len() ==> (is_ascii_letter(#[trigger] s[i]) || is_ascii_digit(s[i]) || s[i] == '_') {
        assert forall|i: int| 0 <= i < s.len() implies !#[trigger] p(i) by {
            lemma_name_chars(s[i]);
        }
        if k < s.len() {
            assert(p(k));
        }
        if s.len() > 0 {
            lemma_name_chars(s[0]);
        }
    } else {
        let i = choose|i: int| 0 <= i < s.len() && !(is_ascii_letter(#[trigger] s[i]) || is_ascii_digit(s[i]) || s[i] == '_');
        lemma_name_chars(s[i]);
        assert(p(i));
        if k == s.len() {
            assert(!p(i));
        }
    }
    if s.len() > 0 && k == s.len() {
        assert(!p(0));
        lemma_name_chars(s[0]);
    }
}

/// The positions of `names` that hold an invalid variable name.
pub open spec fn invalid_name_at(names: Seq<Seq<char>>) -> spec_fn(int) -> bool {
    |i: int| variable_name_check(names[i]) is Err
}

/// The position of the first invalid name in `names`, or `names.len()`.
pub open spec fn first_invalid_name(names: Seq<Seq<char>>) -> int {
    first_index(names.len() as int, invalid_name_at(names))
}

/// What validating a set of variable names gives: too many names are refused
/// first; otherwise the first invalid name, in the order given, decides.
pub open spec fn variable_names_check(names: Seq<Seq<char>>) -> Result<(), ValidationErrorView> {
    if names.len() > MAX_VARIABLES_COUNT {
        Err(ValidationErrorView::TooManyVariables { max: MAX_VARIABLES_COUNT, actual: names.len() as usize })
    } else if first_invalid_name(names) < names.len() {
        variable_name_check(names[first_invalid_name(names)])
    } else {
        Ok(())
    }
}

/// Validates the names of a set of variables: at most
/// [`MAX_VARIABLES_COUNT`] of them, each a valid variable name.
pub fn validate_variable_names(names: &[String]) -> (r: Result<(), ValidationError>)
    ensures
        check_view(r) == variable_names_check(names@.map_values(|n: String| n@)),
{
    let ghost view = names@.map_values(|n: String| n@);
    if names.len() > MAX_VARIABLES_COUNT {
        return Err(ValidationError::TooManyVariables { max: MAX_VARIABLES_COUNT, actual: names.len() });
    }
    let mut i: usize = 0;
    while i < names.len()
        invariant
            i <= names@.len() <= MAX_VARIABLES_COUNT,
            view == names@.map_values(|n: String| n@),
            forall|j: int| 0 <= j < i ==> !#[trigger] invalid_name_at(view)(j),
        decreases names@.len() - i,
    {
        let r = validate_variable_name(names[i].as_str());
        assert(view[i as int] == names@[i as int]@);
        if r.is_err() {
            proof {
                lemma_first_index(view.len() as int, invalid_name_at(view), i as int);
            }
            return r;
        }
        i = i + 1;
    }
    proof {
        lemma_first_index(view.len() as int, invalid_name_at(view), i as int);
    }
    Ok(())
}

} // verus!
