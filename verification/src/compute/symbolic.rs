//! The symbolic engine's verified part: its errors, its handle and the
//! parser from text to expression trees. A tree keeps each numeric constant
//! as the text of its literal; simplification, differentiation and
//! evaluation fold floating-point constants and run outside the library.

use vstd::prelude::*;
use crate::compute::lexer::{tokens_from, Lexer, Token, TokenView};
use crate::kernel::validation::types::str_eq;
use crate::text::prefixed;

verus! {

/// Errors of symbolic computation.
#[derive(Debug, Clone)]
pub enum Error {
    Parse(String),
    SimplificationFailed(String),
    DifferentiationFailed(String),
    EvaluationFailed(String),
    InvalidOperation(String),
}

/// The displayed message of a symbolic error.
pub open spec fn symbolic_error_text(e: Error) -> Seq<char> {
    match e {
        Error::Parse(m) => "Parse error: "@ + m@,
        Error::SimplificationFailed(m) => "Simplification failed: "@ + m@,
        Error::DifferentiationFailed(m) => "Differentiation failed: "@ + m@,
        Error::EvaluationFailed(m) => "Evaluation failed: "@ + m@,
        Error::InvalidOperation(m) => "Invalid operation: "@ + m@,
    }
}

impl Error {
    /// The displayed message, such as `Parse error: unexpected end`.
    pub fn to_string(&self) -> (r: String)
        ensures
            r@ == symbolic_error_text(*self),
    {
        match self {
            Error::Parse(m) => prefixed("Parse error: ", m),
            Error::SimplificationFailed(m) => prefixed("Simplification failed: ", m),
            Error::DifferentiationFailed(m) => prefixed("Differentiation failed: ", m),
            Error::EvaluationFailed(m) => prefixed("Evaluation failed: ", m),
            Error::InvalidOperation(m) => prefixed("Invalid operation: ", m),
        }
    }
}

/// An expression tree as plain values.
pub enum ExprView {
    Const(Seq<char>),
    Var(Seq<char>),
    Add(Box<ExprView>, Box<ExprView>),
    Sub(Box<ExprView>, Box<ExprView>),
    Mul(Box<ExprView>, Box<ExprView>),
    Div(Box<ExprView>, Box<ExprView>),
    Pow(Box<ExprView>, Box<ExprView>),
    Neg(Box<ExprView>),
    Sqrt(Box<ExprView>),
    Sin(Box<ExprView>),
    Cos(Box<ExprView>),
    Tan(Box<ExprView>),
    Log(Box<ExprView>),
    Ln(Box<ExprView>),
    Exp(Box<ExprView>),
}

/// A symbolic expression. A numeric constant keeps the text of its literal;
/// the engine reads the number from it.
#[derive(Debug, PartialEq)]
pub enum Expr {
    /// A numeric constant, as written
    Const(String),
    /// A variable (symbol)
    Var(String),
    /// Addition
    Add(Box<Expr>, Box<Expr>),
    /// Subtraction
    Sub(Box<Expr>, Box<Expr>),
    /// Multiplication
    Mul(Box<Expr>, Box<Expr>),
    /// Division
    Div(Box<Expr>, Box<Expr>),
    /// Power (exponentiation)
    Pow(Box<Expr>, Box<Expr>),
    /// Negation (unary minus)
    Neg(Box<Expr>),
    /// Square root
    Sqrt(Box<Expr>),
    /// Sine function
    Sin(Box<Expr>),
    /// Cosine function
    Cos(Box<Expr>),
    /// Tangent function
    Tan(Box<Expr>),
    /// Logarithm (base 10)
    Log(Box<Expr>),
    /// Natural logarithm
    Ln(Box<Expr>),
    /// Exponential
    Exp(Box<Expr>),
}

/// The plain value of an expression tree.
pub open spec fn expr_view(e: Expr) -> ExprView
    decreases e,
{
    match e {
        Expr::Const(t) => ExprView::Const(t@),
        Expr::Var(t) => ExprView::Var(t@),
        Expr::Add(l, r) => ExprView::Add(Box::new(expr_view(*l)), Box::new(expr_view(*r))),
        Expr::Sub(l, r) => ExprView::Sub(Box::new(expr_view(*l)), Box::new(expr_view(*r))),
        Expr::Mul(l, r) => ExprView::Mul(Box::new(expr_view(*l)), Box::new(expr_view(*r))),
        Expr::Div(l, r) => ExprView::Div(Box::new(expr_view(*l)), Box::new(expr_view(*r))),
        Expr::Pow(l, r) => ExprView::Pow(Box::new(expr_view(*l)), Box::new(expr_view(*r))),
        Expr::Neg(x) => ExprView::Neg(Box::new(expr_view(*x))),
        Expr::Sqrt(x) => ExprView::Sqrt(Box::new(expr_view(*x))),
        Expr::Sin(x) => ExprView::Sin(Box::new(expr_view(*x))),
        Expr::Cos(x) => ExprView::Cos(Box::new(expr_view(*x))),
        Expr::Tan(x) => ExprView::Tan(Box::new(expr_view(*x))),
        Expr::Log(x) => ExprView::Log(Box::new(expr_view(*x))),
        Expr::Ln(x) => ExprView::Ln(Box::new(expr_view(*x))),
        Expr::Exp(x) => ExprView::Exp(Box::new(expr_view(*x))),
    }
}

impl View for Expr {
    type V = ExprView;

    open spec fn view(&self) -> ExprView {
        expr_view(*self)
    }
}

impl Clone for Expr {
    /// A copy of the tree.
    fn clone(&self) -> (r: Self)
        ensures
            r@ == self@,
        decreases self,
    {
        match self {
            Expr::Const(t) => Expr::Const(t.clone()),
            Expr::Var(t) => Expr::Var(t.clone()),
            Expr::Add(l, r) => Expr::Add(Box::new((&**l).clone()), Box::new((&**r).clone())),
            Expr::Sub(l, r) => Expr::Sub(Box::new((&**l).clone()), Box::new((&**r).clone())),
            Expr::Mul(l, r) => Expr::Mul(Box::new((&**l).clone()), Box::new((&**r).clone())),
            Expr::Div(l, r) => Expr::Div(Box::new((&**l).clone()), Box::new((&**r).clone())),
            Expr::Pow(l, r) => Expr::Pow(Box::new((&**l).clone()), Box::new((&**r).clone())),
            Expr::Neg(x) => Expr::Neg(Box::new((&**x).clone())),
            Expr::Sqrt(x) => Expr::Sqrt(Box::new((&**x).clone())),
            Expr::Sin(x) => Expr::Sin(Box::new((&**x).clone())),
            Expr::Cos(x) => Expr::Cos(Box::new((&**x).clone())),
            Expr::Tan(x) => Expr::Tan(Box::new((&**x).clone())),
            Expr::Log(x) => Expr::Log(Box::new((&**x).clone())),
            Expr::Ln(x) => Expr::Ln(Box::new((&**x).clone())),
            Expr::Exp(x) => Expr::Exp(Box::new((&**x).clone())),
        }
    }
}

/// Why a text is not an expression, as plain values.
pub enum SyntaxErrorView {
    ExpectedRParen(TokenView),
    UnknownFunction(Seq<char>),
    UnexpectedToken(TokenView),
    TrailingTokens,
}

/// Why a text is not an expression. The engine words the message; a token
/// is shown as it was read.
#[derive(Debug, Clone, PartialEq)]
pub enum SyntaxError {
    /// A closing bracket was due; the token that came instead.
    ExpectedRParen(Token),
    /// A call of a function that the engine does not know.
    UnknownFunction(String),
    /// A token that cannot begin an operand.
    UnexpectedToken(Token),
    /// Tokens after a complete expression.
    TrailingTokens,
}

impl View for SyntaxError {
    type V = SyntaxErrorView;

    open spec fn view(&self) -> SyntaxErrorView {
        match self {
            SyntaxError::ExpectedRParen(t) => SyntaxErrorView::ExpectedRParen(t@),
            SyntaxError::UnknownFunction(n) => SyntaxErrorView::UnknownFunction(n@),
            SyntaxError::UnexpectedToken(t) => SyntaxErrorView::UnexpectedToken(t@),
            SyntaxError::TrailingTokens => SyntaxErrorView::TrailingTokens,
        }
    }
}

/// The outcome of parsing from a position: a tree and how many tokens it
/// took, or the error.
pub enum Parsed {
    Done(ExprView, nat),
    Failed(SyntaxErrorView),
}

/// The token at `pos`; past the end, `Eof`.
pub open spec fn token_at(ts: Seq<TokenView>, pos: nat) -> TokenView {
    if pos < ts.len() {
        ts[pos as int]
    } else {
        TokenView::Eof
    }
}

/// How many tokens lie at and after `pos`.
pub open spec fn remaining(ts: Seq<TokenView>, pos: nat) -> nat {
    if pos < ts.len() {
        (ts.len() - pos) as nat
    } else {
        0
    }
}

/// An outcome counted after `n` tokens already taken.
pub open spec fn after(r: Parsed, n: nat) -> Parsed {
    match r {
        Parsed::Done(e, k) => Parsed::Done(e, n + k),
        Parsed::Failed(x) => Parsed::Failed(x),
    }
}

/// `expression = term (('+' | '-') term)*`, from `pos`.
pub open spec fn parse_expression_at(ts: Seq<TokenView>, pos: nat) -> Parsed
    decreases remaining(ts, pos), 6nat,
{
    match parse_term_at(ts, pos) {
        Parsed::Done(first, k) => after(sums_after(ts, first, pos + k), k),
        Parsed::Failed(x) => Parsed::Failed(x),
    }
}

/// The rest of a sum whose terms so far make `left`, from `pos`; the terms
/// group to the left.
pub open spec fn sums_after(ts: Seq<TokenView>, left: ExprView, pos: nat) -> Parsed
    decreases remaining(ts, pos), 5nat,
{
    let op = token_at(ts, pos);
    if op is Plus || op is Minus {
        match parse_term_at(ts, pos + 1) {
            Parsed::Done(right, k) => {
                let sum = if op is Plus {
                    ExprView::Add(Box::new(left), Box::new(right))
                } else {
                    ExprView::Sub(Box::new(left), Box::new(right))
                };
                after(sums_after(ts, sum, pos + 1 + k), 1 + k)
            },
            Parsed::Failed(x) => Parsed::Failed(x),
        }
    } else {
        Parsed::Done(left, 0)
    }
}

/// `term = unary (('*' | '/') unary)*`, from `pos`.
pub open spec fn parse_term_at(ts: Seq<TokenView>, pos: nat) -> Parsed
    decreases remaining(ts, pos), 4nat,
{
    match parse_unary_at(ts, pos) {
        Parsed::Done(first, k) => after(products_after(ts, first, pos + k), k),
        Parsed::Failed(x) => Parsed::Failed(x),
    }
}

/// The rest of a product whose factors so far make `left`, from `pos`; the
/// factors group to the left.
pub open spec fn products_after(ts: Seq<TokenView>, left: ExprView, pos: nat) -> Parsed
    decreases remaining(ts, pos), 3nat,
{
    let op = token_at(ts, pos);
    if op is Star || op is Slash {
        match parse_unary_at(ts, pos + 1) {
            Parsed::Done(right, k) => {
                let product = if op is Star {
                    ExprView::Mul(Box::new(left), Box::new(right))
                } else {
                    ExprView::Div(Box::new(left), Box::new(right))
                };
                after(products_after(ts, product, pos + 1 + k), 1 + k)
            },
            Parsed::Failed(x) => Parsed::Failed(x),
        }
    } else {
        Parsed::Done(left, 0)
    }
}

/// `unary = ('-')? power`, from `pos`.
pub open spec fn parse_unary_at(ts: Seq<TokenView>, pos: nat) -> Parsed
    decreases remaining(ts, pos), 2nat,
{
    if token_at(ts, pos) is Minus {
        match parse_power_at(ts, pos + 1) {
            Parsed::Done(e, k) => Parsed::Done(ExprView::Neg(Box::new(e)), 1 + k),
            Parsed::Failed(x) => Parsed::Failed(x),
        }
    } else {
        parse_power_at(ts, pos)
    }
}

/// `power = primary ('^' power)?`, from `pos`; powers group to the right.
pub open spec fn parse_power_at(ts: Seq<TokenView>, pos: nat) -> Parsed
    decreases remaining(ts, pos), 1nat,
{
    match parse_primary_at(ts, pos) {
        Parsed::Done(base, k) => {
            if token_at(ts, pos + k) is Caret {
                match parse_power_at(ts, pos + k + 1) {
                    Parsed::Done(exponent, k2) => Parsed::Done(
                        ExprView::Pow(Box::new(base), Box::new(exponent)),
                        k + 1 + k2,
                    ),
                    Parsed::Failed(x) => Parsed::Failed(x),
                }
            } else {
                Parsed::Done(base, k)
            }
        },
        Parsed::Failed(x) => Parsed::Failed(x),
    }
}

/// The call of the function `name` on `arg`, for the functions the engine
/// knows.
pub open spec fn function_call(name: Seq<char>, arg: ExprView) -> Option<ExprView> {
    if name == "sqrt"@ {
        Some(ExprView::Sqrt(Box::new(arg)))
    } else if name == "sin"@ {
        Some(ExprView::Sin(Box::new(arg)))
    } else if name == "cos"@ {
        Some(ExprView::Cos(Box::new(arg)))
    } else if name == "tan"@ {
        Some(ExprView::Tan(Box::new(arg)))
    } else if name == "log"@ {
        Some(ExprView::Log(Box::new(arg)))
    } else if name == "ln"@ {
        Some(ExprView::Ln(Box::new(arg)))
    } else if name == "exp"@ {
        Some(ExprView::Exp(Box::new(arg)))
    } else {
        None
    }
}

/// `primary = number | identifier | function '(' expression ')' | '('
/// expression ')'`, from `pos`. A call's closing bracket is checked before
/// its function's name.
pub open spec fn parse_primary_at(ts: Seq<TokenView>, pos: nat) -> Parsed
    decreases remaining(ts, pos), 0nat,
{
    match token_at(ts, pos) {
        TokenView::Number(text) => Parsed::Done(ExprView::Const(text), 1),
        TokenView::Identifier(name) => {
            if token_at(ts, pos + 1) is LParen {
                match parse_expression_at(ts, pos + 2) {
                    Parsed::Done(arg, k) => {
                        let close = token_at(ts, pos + 2 + k);
                        if close is RParen {
                            match function_call(name, arg) {
                                Some(call) => Parsed::Done(call, k + 3),
                                None => Parsed::Failed(SyntaxErrorView::UnknownFunction(name)),
                            }
                        } else {
                            Parsed::Failed(SyntaxErrorView::ExpectedRParen(close))
                        }
                    },
                    Parsed::Failed(x) => Parsed::Failed(x),
                }
            } else {
                Parsed::Done(ExprView::Var(name), 1)
            }
        },
        TokenView::LParen => {
            match parse_expression_at(ts, pos + 1) {
                Parsed::Done(inner, k) => {
                    let close = token_at(ts, pos + 1 + k);
                    if close is RParen {
                        Parsed::Done(inner, k + 2)
                    } else {
                        Parsed::Failed(SyntaxErrorView::ExpectedRParen(close))
                    }
                },
                Parsed::Failed(x) => Parsed::Failed(x),
            }
        },
        other => Parsed::Failed(SyntaxErrorView::UnexpectedToken(other)),
    }
}

/// Negation binds tighter than addition and subtraction: a `-` before a
/// power, followed by `+` (or `-`) and a term that ends the sum, parses as the
/// sum (or difference) of the negated power and that term, never as the
/// negation of the whole sum.
pub proof fn lemma_negation_binds_tighter(ts: Seq<TokenView>, pos: nat, p: ExprView, k: nat, q: ExprView, k2: nat)
    requires
        token_at(ts, pos) is Minus,
        parse_power_at(ts, pos + 1) == Parsed::Done(p, k),
        token_at(ts, pos + 1 + k) is Plus || token_at(ts, pos + 1 + k) is Minus,
        parse_term_at(ts, pos + 2 + k) == Parsed::Done(q, k2),
        !(token_at(ts, pos + 2 + k + k2) is Plus || token_at(ts, pos + 2 + k + k2) is Minus),
    ensures
        parse_expression_at(ts, pos) == Parsed::Done(
            if token_at(ts, pos + 1 + k) is Plus {
                ExprView::Add(Box::new(ExprView::Neg(Box::new(p))), Box::new(q))
            } else {
                ExprView::Sub(Box::new(ExprView::Neg(Box::new(p))), Box::new(q))
            },
            2 + k + k2,
        ),
{
    let neg = ExprView::Neg(Box::new(p));
    assert(parse_unary_at(ts, pos) == Parsed::Done(neg, 1 + k));
    assert(products_after(ts, neg, pos + 1 + k) == Parsed::Done(neg, 0));
    assert(parse_term_at(ts, pos) == Parsed::Done(neg, 1 + k));
    let sum = if token_at(ts, pos + 1 + k) is Plus {
        ExprView::Add(Box::new(neg), Box::new(q))
    } else {
        ExprView::Sub(Box::new(neg), Box::new(q))
    };
    assert(sums_after(ts, sum, pos + 2 + k + k2) == Parsed::Done(sum, 0));
    lemma_sum_step(ts, neg, pos + 1 + k, q, k2);
    assert(sums_after(ts, neg, pos + 1 + k) == Parsed::Done(sum, 1 + k2));
}

/// The expression that a token list spells: one expression, then `Eof`.
pub open spec fn parse_tokens(ts: Seq<TokenView>) -> Result<ExprView, SyntaxErrorView> {
    match parse_expression_at(ts, 0) {
        Parsed::Done(e, k) => {
            if token_at(ts, k) is Eof {
                Ok(e)
            } else {
                Err(SyntaxErrorView::TrailingTokens)
            }
        },
        Parsed::Failed(x) => Err(x),
    }
}

/// The expression that a text spells: its tokens (a numeric literal takes
/// every `.` after its digits), parsed.
pub open spec fn parse_text(input: Seq<char>) -> Result<ExprView, SyntaxErrorView> {
    parse_tokens(tokens_from(input, 0, false))
}

/// The plain values of a token list.
pub open spec fn token_views(ts: Seq<Token>) -> Seq<TokenView> {
    ts.map_values(|t: Token| t@)
}

/// A parsing step's result against its outcome in the grammar: the tree and
/// the position after it, within the token list, or the error.
pub open spec fn step_agrees(r: Result<(Expr, usize), SyntaxError>, p: Parsed, pos: usize, len: nat) -> bool {
    match r {
        Ok((e, end)) => pos <= end <= len && p == Parsed::Done(e@, (end - pos) as nat),
        Err(x) => p == Parsed::Failed(x@),
    }
}

/// Counting in two steps is counting once.
pub proof fn lemma_after_after(r: Parsed, a: nat, b: nat)
    ensures
        after(after(r, a), b) == after(r, b + a),
{
}

/// One step of a sum: after `left`, an operator and a term continue it.
proof fn lemma_sum_step(vs: Seq<TokenView>, left: ExprView, end: nat, right: ExprView, k: nat)
    requires
        token_at(vs, end) is Plus || token_at(vs, end) is Minus,
        parse_term_at(vs, end + 1) == Parsed::Done(right, k),
    ensures
        sums_after(vs, left, end) == after(
            sums_after(
                vs,
                if token_at(vs, end) is Plus {
                    ExprView::Add(Box::new(left), Box::new(right))
                } else {
                    ExprView::Sub(Box::new(left), Box::new(right))
                },
                end + 1 + k,
            ),
            1 + k,
        ),
{
}

/// One step of a product: after `left`, an operator and a factor continue it.
proof fn lemma_product_step(vs: Seq<TokenView>, left: ExprView, end: nat, right: ExprView, k: nat)
    requires
        token_at(vs, end) is Star || token_at(vs, end) is Slash,
        parse_unary_at(vs, end + 1) == Parsed::Done(right, k),
    ensures
        products_after(vs, left, end) == after(
            products_after(
                vs,
                if token_at(vs, end) is Star {
                    ExprView::Mul(Box::new(left), Box::new(right))
                } else {
                    ExprView::Div(Box::new(left), Box::new(right))
                },
                end + 1 + k,
            ),
            1 + k,
        ),
{
}

/// A copy of a token.
fn copy_token(t: &Token) -> (r: Token)
    ensures
        r@ == t@,
{
    match t {
        Token::Number(text) => Token::Number(text.clone()),
        Token::Identifier(name) => Token::Identifier(name.clone()),
        Token::Plus => Token::Plus,
        Token::Minus => Token::Minus,
        Token::Star => Token::Star,
        Token::Slash => Token::Slash,
        Token::Caret => Token::Caret,
        Token::LParen => Token::LParen,
        Token::RParen => Token::RParen,
        Token::Comma => Token::Comma,
        Token::Eof => Token::Eof,
    }
}

/// The token at `pos`; past the end, `Eof`.
fn token_at_exec(ts: &Vec<Token>, pos: usize) -> (r: Token)
    ensures
        r@ == token_at(token_views(ts@), pos as nat),
{
    if pos < ts.len() {
        copy_token(&ts[pos])
    } else {
        Token::Eof
    }
}

/// An expression from `pos`.
fn parse_expression(ts: &Vec<Token>, pos: usize) -> (r: Result<(Expr, usize), SyntaxError>)
    requires
        pos <= ts.len(),
    ensures
        step_agrees(r, parse_expression_at(token_views(ts@), pos as nat), pos, ts.len() as nat),
    decreases remaining(token_views(ts@), pos as nat), 7nat,
{
    let ghost vs = token_views(ts@);
    let (mut left, mut end) = match parse_term(ts, pos) {
        Ok(v) => v,
        Err(x) => return Err(x),
    };
    loop
        invariant
            vs == token_views(ts@),
            pos <= end <= ts.len(),
            parse_expression_at(vs, pos as nat) == after(sums_after(vs, left@, end as nat), (end - pos) as nat),
        decreases ts.len() - end,
    {
        let op = token_at_exec(ts, end);
        let plus = matches!(op, Token::Plus);
        if !plus && !matches!(op, Token::Minus) {
            assert(sums_after(vs, left@, end as nat) == Parsed::Done(left@, 0));
            return Ok((left, end));
        }
        assert(end < ts.len());
        let (right, next) = match parse_term(ts, end + 1) {
            Ok(v) => v,
            Err(x) => return Err(x),
        };
        let ghost old_left = left@;
        proof {
            lemma_sum_step(vs, old_left, end as nat, right@, (next - end - 1) as nat);
        }
        left = if plus {
            Expr::Add(Box::new(left), Box::new(right))
        } else {
            Expr::Sub(Box::new(left), Box::new(right))
        };
        proof {
            lemma_after_after(sums_after(vs, left@, next as nat), (next - end) as nat, (end - pos) as nat);
        }
        end = next;
    }
}

/// A term from `pos`.
fn parse_term(ts: &Vec<Token>, pos: usize) -> (r: Result<(Expr, usize), SyntaxError>)
    requires
        pos <= ts.len(),
    ensures
        step_agrees(r, parse_term_at(token_views(ts@), pos as nat), pos, ts.len() as nat),
    decreases remaining(token_views(ts@), pos as nat), 5nat,
{
    let ghost vs = token_views(ts@);
    let (mut left, mut end) = match parse_unary(ts, pos) {
        Ok(v) => v,
        Err(x) => return Err(x),
    };
    loop
        invariant
            vs == token_views(ts@),
            pos <= end <= ts.len(),
            parse_term_at(vs, pos as nat) == after(products_after(vs, left@, end as nat), (end - pos) as nat),
        decreases ts.len() - end,
    {
        let op = token_at_exec(ts, end);
        let star = matches!(op, Token::Star);
        if !star && !matches!(op, Token::Slash) {
            assert(products_after(vs, left@, end as nat) == Parsed::Done(left@, 0));
            return Ok((left, end));
        }
        assert(end < ts.len());
        let (right, next) = match parse_unary(ts, end + 1) {
            Ok(v) => v,
            Err(x) => return Err(x),
        };
        let ghost old_left = left@;
        proof {
            lemma_product_step(vs, old_left, end as nat, right@, (next - end - 1) as nat);
        }
        left = if star {
            Expr::Mul(Box::new(left), Box::new(right))
        } else {
            Expr::Div(Box::new(left), Box::new(right))
        };
        proof {
            lemma_after_after(products_after(vs, left@, next as nat), (next - end) as nat, (end - pos) as nat);
        }
        end = next;
    }
}

/// A unary operand from `pos`.
fn parse_unary(ts: &Vec<Token>, pos: usize) -> (r: Result<(Expr, usize), SyntaxError>)
    requires
        pos <= ts.len(),
    ensures
        step_agrees(r, parse_unary_at(token_views(ts@), pos as nat), pos, ts.len() as nat),
    decreases remaining(token_views(ts@), pos as nat), 3nat,
{
    let t = token_at_exec(ts, pos);
    if matches!(t, Token::Minus) {
        match parse_power(ts, pos + 1) {
            Ok((e, end)) => Ok((Expr::Neg(Box::new(e)), end)),
            Err(x) => Err(x),
        }
    } else {
        parse_power(ts, pos)
    }
}

/// A power from `pos`.
fn parse_power(ts: &Vec<Token>, pos: usize) -> (r: Result<(Expr, usize), SyntaxError>)
    requires
        pos <= ts.len(),
    ensures
        step_agrees(r, parse_power_at(token_views(ts@), pos as nat), pos, ts.len() as nat),
    decreases remaining(token_views(ts@), pos as nat), 2nat,
{
    let (base, end) = match parse_primary(ts, pos) {
        Ok(v) => v,
        Err(x) => return Err(x),
    };
    let t = token_at_exec(ts, end);
    if matches!(t, Token::Caret) {
        match parse_power(ts, end + 1) {
            Ok((exponent, last)) => Ok((Expr::Pow(Box::new(base), Box::new(exponent)), last)),
            Err(x) => Err(x),
        }
    } else {
        Ok((base, end))
    }
}

/// The call of the function `name` on `arg`, for the functions the engine
/// knows.
fn call_function(name: &String, arg: Expr) -> (r: Option<Expr>)
    ensures
        match r {
            Some(e) => function_call(name@, arg@) == Some(e@),
            None => function_call(name@, arg@) is None,
        },
{
    let n = name.as_str();
    if str_eq(n, "sqrt") {
        Some(Expr::Sqrt(Box::new(arg)))
    } else if str_eq(n, "sin") {
        Some(Expr::Sin(Box::new(arg)))
    } else if str_eq(n, "cos") {
        Some(Expr::Cos(Box::new(arg)))
    } else if str_eq(n, "tan") {
        Some(Expr::Tan(Box::new(arg)))
    } else if str_eq(n, "log") {
        Some(Expr::Log(Box::new(arg)))
    } else if str_eq(n, "ln") {
        Some(Expr::Ln(Box::new(arg)))
    } else if str_eq(n, "exp") {
        Some(Expr::Exp(Box::new(arg)))
    } else {
        None
    }
}

/// A call `name(...)` from `pos`, where `name` stands at `pos` and `(` after it.
fn parse_call(ts: &Vec<Token>, pos: usize, name: String) -> (r: Result<(Expr, usize), SyntaxError>)
    requires
        pos <= ts.len(),
        token_at(token_views(ts@), pos as nat) == TokenView::Identifier(name@),
        token_at(token_views(ts@), pos as nat + 1) is LParen,
    ensures
        step_agrees(r, parse_primary_at(token_views(ts@), pos as nat), pos, ts.len() as nat),
    decreases remaining(token_views(ts@), pos as nat), 0nat,
{
    let (arg, end) = match parse_expression(ts, pos + 2) {
        Ok(v) => v,
        Err(x) => return Err(x),
    };
    let close = token_at_exec(ts, end);
    if !matches!(close, Token::RParen) {
        return Err(SyntaxError::ExpectedRParen(close));
    }
    match call_function(&name, arg) {
        Some(call) => Ok((call, end + 1)),
        None => Err(SyntaxError::UnknownFunction(name)),
    }
}

/// A bracketed expression from `pos`, where `(` stands at `pos`.
fn parse_group(ts: &Vec<Token>, pos: usize) -> (r: Result<(Expr, usize), SyntaxError>)
    requires
        pos <= ts.len(),
        token_at(token_views(ts@), pos as nat) is LParen,
    ensures
        step_agrees(r, parse_primary_at(token_views(ts@), pos as nat), pos, ts.len() as nat),
    decreases remaining(token_views(ts@), pos as nat), 0nat,
{
    let (inner, end) = match parse_expression(ts, pos + 1) {
        Ok(v) => v,
        Err(x) => return Err(x),
    };
    let close = token_at_exec(ts, end);
    if !matches!(close, Token::RParen) {
        return Err(SyntaxError::ExpectedRParen(close));
    }
    Ok((inner, end + 1))
}

/// A primary operand from `pos`.
fn parse_primary(ts: &Vec<Token>, pos: usize) -> (r: Result<(Expr, usize), SyntaxError>)
    requires
        pos <= ts.len(),
    ensures
        step_agrees(r, parse_primary_at(token_views(ts@), pos as nat), pos, ts.len() as nat),
    decreases remaining(token_views(ts@), pos as nat), 1nat,
{
    let t = token_at_exec(ts, pos);
    match t {
        Token::Number(text) => Ok((Expr::Const(text), pos + 1)),
        Token::Identifier(name) => {
            let next = token_at_exec(ts, pos + 1);
            if matches!(next, Token::LParen) {
                parse_call(ts, pos, name)
            } else {
                Ok((Expr::Var(name), pos + 1))
            }
        },
        Token::LParen => parse_group(ts, pos),
        other => Err(SyntaxError::UnexpectedToken(other)),
    }
}

/// Parses a text into an expression tree: one expression over all its
/// tokens. A numeric literal takes every `.` after its digits.
pub fn parse(input: &str) -> (r: Result<Expr, SyntaxError>)
    requires
        input@.len() < usize::MAX,
    ensures
        match r {
            Ok(e) => parse_text(input@) == Ok::<ExprView, SyntaxErrorView>(e@),
            Err(x) => parse_text(input@) == Err::<ExprView, SyntaxErrorView>(x@),
        },
{
    let mut lexer = Lexer::with_single_dot(input, false);
    let tokens = lexer.tokenize();
    match parse_expression(&tokens, 0) {
        Ok((e, end)) => {
            let t = token_at_exec(&tokens, end);
            if matches!(t, Token::Eof) {
                Ok(e)
            } else {
                Err(SyntaxError::TrailingTokens)
            }
        },
        Err(x) => Err(x),
    }
}

/// The symbolic computation engine.
#[derive(Debug)]
pub struct SymbolicEngine;

impl SymbolicEngine {
    pub fn new() -> (r: Self) {
        SymbolicEngine
    }

    /// Parses a text into an expression tree, as [`parse`] does.
    pub fn parse(&self, input: &str) -> (r: Result<Expr, SyntaxError>)
        requires
            input@.len() < usize::MAX,
        ensures
            match r {
                Ok(e) => parse_text(input@) == Ok::<ExprView, SyntaxErrorView>(e@),
                Err(x) => parse_text(input@) == Err::<ExprView, SyntaxErrorView>(x@),
            },
    {
        parse(input)
    }
}

} // verus!
