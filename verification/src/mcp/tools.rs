//! The MathCore tools of the protocol server.

use vstd::prelude::*;
use crate::text::{decimal, push_decimal, replace_all, replace_chars, string_push_str, to_owned_string};

verus! {

/// The MathCore tools.
#[derive(Debug)]
pub struct MathCoreTools {}

impl MathCoreTools {
    pub fn new() -> (r: Self) {
        MathCoreTools {  }
    }

    /// `evaluated: ` followed by the expression.
    pub fn evaluate(&self, expression: &str) -> (r: String)
        ensures
            r@ == "evaluated: "@ + expression@,
    {
        let mut r = to_owned_string("evaluated: ");
        string_push_str(&mut r, expression);
        r
    }

    /// The expression without ` + 0`, then without ` - 0`.
    pub fn simplify(&self, expression: &str) -> (r: String)
        ensures
            r@ == replace_all(replace_all(expression@, " + 0"@, ""@), " - 0"@, ""@),
    {
        proof {
            reveal_strlit(" + 0");
            reveal_strlit(" - 0");
        }
        let once = replace_chars(expression, " + 0", "");
        replace_chars(once.as_str(), " - 0", "")
    }

    /// `d/d<variable> of <expression>`.
    pub fn derivative(&self, expression: &str, variable: &str) -> (r: String)
        ensures
            r@ == "d/d"@ + variable@ + " of "@ + expression@,
    {
        let mut r = to_owned_string("d/d");
        string_push_str(&mut r, variable);
        string_push_str(&mut r, " of ");
        string_push_str(&mut r, expression);
        r
    }

    /// `∫<expression> d<variable>`.
    pub fn integrate(&self, expression: &str, variable: &str) -> (r: String)
        ensures
            r@ == "∫"@ + expression@ + " d"@ + variable@,
    {
        let mut r = to_owned_string("∫");
        string_push_str(&mut r, expression);
        string_push_str(&mut r, " d");
        string_push_str(&mut r, variable);
        r
    }

    /// One solution: `solution of <equation> for <variable>`.
    pub fn solve(&self, equation: &str, variable: &str) -> (r: Vec<String>)
        ensures
            r@.len() == 1,
            r@[0]@ == "solution of "@ + equation@ + " for "@ + variable@,
    {
        let mut s = to_owned_string("solution of ");
        string_push_str(&mut s, equation);
        string_push_str(&mut s, " for ");
        string_push_str(&mut s, variable);
        let mut r = Vec::new();
        r.push(s);
        r
    }

    /// `expanded: ` followed by the expression.
    pub fn expand(&self, expression: &str) -> (r: String)
        ensures
            r@ == "expanded: "@ + expression@,
    {
        let mut r = to_owned_string("expanded: ");
        string_push_str(&mut r, expression);
        r
    }

    /// `factored: ` followed by the expression.
    pub fn factor(&self, expression: &str) -> (r: String)
        ensures
            r@ == "factored: "@ + expression@,
    {
        let mut r = to_owned_string("factored: ");
        string_push_str(&mut r, expression);
        r
    }

    /// `<expression> with <substitutions>`.
    pub fn substitute(&self, expression: &str, substitutions: &str) -> (r: String)
        ensures
            r@ == expression@ + " with "@ + substitutions@,
    {
        let mut r = to_owned_string(expression);
        string_push_str(&mut r, " with ");
        string_push_str(&mut r, substitutions);
        r
    }

    /// `lim(<variable>-><value>) <expression>`.
    pub fn limit(&self, expression: &str, variable: &str, value: &str) -> (r: String)
        ensures
            r@ == "lim("@ + variable@ + "->"@ + value@ + ") "@ + expression@,
    {
        let mut r = to_owned_string("lim(");
        string_push_str(&mut r, variable);
        string_push_str(&mut r, "->");
        string_push_str(&mut r, value);
        string_push_str(&mut r, ") ");
        string_push_str(&mut r, expression);
        r
    }

    /// `series of <expression> at <variable>=<point> to order <order>`.
    pub fn series(&self, expression: &str, variable: &str, point: &str, order: u32) -> (r: String)
        ensures
            r@ == "series of "@ + expression@ + " at "@ + variable@ + "="@ + point@ + " to order "@
                + decimal(order as nat),
    {
        let mut r = to_owned_string("series of ");
        string_push_str(&mut r, expression);
        string_push_str(&mut r, " at ");
        string_push_str(&mut r, variable);
        string_push_str(&mut r, "=");
        string_push_str(&mut r, point);
        string_push_str(&mut r, " to order ");
        push_decimal(&mut r, order as u64);
        r
    }
}

impl Default for MathCoreTools {
    fn default() -> (r: Self) {
        MathCoreTools::new()
    }
}

} // verus!
