//! The character scanner shared by the expression parsers: it walks the
//! input one character at a time and reads white space, identifiers, the
//! text of numeric literals and whole tokens.

use vstd::prelude::*;
use crate::text::{
    char_is_alphabetic, char_is_alphanumeric, char_is_numeric, char_is_whitespace, chars_of,
    first_index_from, is_alphabetic, is_alphanumeric, is_numeric, is_white_space,
    lemma_first_index_from, lemma_first_index_from_props, string_push,
};

verus! {

/// The positions from `p` on whose character is not white space.
pub open spec fn non_space(s: Seq<char>) -> spec_fn(int) -> bool {
    |i: int| !is_white_space(s[i])
}

/// The positions that end an identifier: neither alphanumeric nor `_`.
pub open spec fn ends_identifier(s: Seq<char>) -> spec_fn(int) -> bool {
    |i: int| !(is_alphanumeric(s[i]) || s[i] == '_')
}

/// The positions that end a numeric literal begun at `p`: neither numeric
/// nor a `.` that the literal may take (with `single_dot`, only the first
/// `.` since `p`; otherwise every `.`).
pub open spec fn ends_number(s: Seq<char>, p: int, single_dot: bool) -> spec_fn(int) -> bool {
    |i: int| !(is_numeric(s[i]) || (s[i] == '.' && !(single_dot && s.subrange(p, i).contains('.'))))
}

/// Where a scan from `p` that stops at the first position satisfying `stop`
/// ends; a scan from past the end stays where it is.
pub open spec fn scan_end(s: Seq<char>, p: int, stop: spec_fn(int) -> bool) -> int {
    if p >= s.len() {
        p
    } else {
        first_index_from(p, s.len() as int, stop)
    }
}

/// The characters of `s` from `p` up to `e`; nothing when `p` lies past the end.
pub open spec fn taken(s: Seq<char>, p: int, e: int) -> Seq<char> {
    if p < s.len() {
        s.subrange(p, e)
    } else {
        Seq::empty()
    }
}

/// A cursor over the characters of an expression. The numeric engine's
/// literals hold at most one `.`; the symbolic engine's take every `.`.
#[derive(Debug)]
pub struct Lexer {
    input: Vec<char>,
    pos: usize,
    single_dot: bool,
}

impl Lexer {
    /// The characters of the input.
    pub closed spec fn chars(&self) -> Seq<char> {
        self.input@
    }

    /// The cursor position (it may lie past the end).
    pub closed spec fn pos_spec(&self) -> usize {
        self.pos
    }

    /// Whether a numeric literal stops at its second `.`.
    pub closed spec fn single_dot_spec(&self) -> bool {
        self.single_dot
    }

    /// A cursor at the start of `input` whose numeric literals hold at most
    /// one `.`.
    pub fn new(input: &str) -> (r: Self)
        ensures
            r.chars() == input@,
            r.pos_spec() == 0,
            r.single_dot_spec(),
    {
        Lexer { input: chars_of(input), pos: 0, single_dot: true }
    }

    /// A cursor at the start of `input`; with `single_dot` false a numeric
    /// literal takes every `.` that follows its digits.
    pub fn with_single_dot(input: &str, single_dot: bool) -> (r: Self)
        ensures
            r.chars() == input@,
            r.pos_spec() == 0,
            r.single_dot_spec() == single_dot,
    {
        Lexer { input: chars_of(input), pos: 0, single_dot }
    }

    /// The character at the cursor, if the cursor is inside the input.
    pub fn peek(&self) -> (r: Option<char>)
        ensures
            r == (if self.pos_spec() < self.chars().len() {
                Some(self.chars()[self.pos_spec() as int])
            } else {
                None
            }),
    {
        if self.pos < self.input.len() {
            Some(self.input[self.pos])
        } else {
            None
        }
    }

    /// Returns the character at the cursor, if any, and moves past it
    /// (also past the end).
    pub fn advance(&mut self) -> (r: Option<char>)
        requires
            old(self).pos_spec() < usize::MAX,
        ensures
            r == (if old(self).pos_spec() < old(self).chars().len() {
                Some(old(self).chars()[old(self).pos_spec() as int])
            } else {
                None
            }),
            final(self).chars() == old(self).chars(),
            final(self).single_dot_spec() == old(self).single_dot_spec(),
            final(self).pos_spec() == old(self).pos_spec() + 1,
    {
        let ch = self.peek();
        self.pos = self.pos + 1;
        ch
    }

    /// Moves the cursor past white space.
    pub fn skip_whitespace(&mut self)
        ensures
            final(self).chars() == old(self).chars(),
            final(self).single_dot_spec() == old(self).single_dot_spec(),
            final(self).pos_spec() == scan_end(old(self).chars(), old(self).pos_spec() as int, non_space(old(self).chars())),
    {
        let ghost s = self.input@;
        let ghost p = self.pos as int;
        while self.pos < self.input.len() && char_is_whitespace(self.input[self.pos])
            invariant
                s == self.input@,
                self.single_dot == old(self).single_dot,
                p <= self.pos,
                p < s.len() ==> self.pos <= s.len(),
                p >= s.len() ==> self.pos == p,
                forall|j: int| p <= j < self.pos ==> !#[trigger] non_space(s)(j),
            decreases s.len() - self.pos,
        {
            self.pos = self.pos + 1;
        }
        proof {
            if p < s.len() {
                lemma_first_index_from(p, s.len() as int, non_space(s), self.pos as int);
            }
        }
    }

    /// Reads an identifier: the letters, digits and `_` at the cursor.
    pub fn read_identifier(&mut self) -> (r: String)
        ensures
            final(self).chars() == old(self).chars(),
            final(self).single_dot_spec() == old(self).single_dot_spec(),
            final(self).pos_spec() == scan_end(old(self).chars(), old(self).pos_spec() as int, ends_identifier(old(self).chars())),
            r@ == taken(old(self).chars(), old(self).pos_spec() as int, final(self).pos_spec() as int),
    {
        let ghost s = self.input@;
        let ghost p = self.pos as int;
        let mut ident = String::new();
        if self.pos >= self.input.len() {
            return ident;
        }
        assert(s.subrange(p, p) =~= ident@);
        while self.pos < self.input.len() && (char_is_alphanumeric(self.input[self.pos]) || self.input[self.pos] == '_')
            invariant
                s == self.input@,
                self.single_dot == old(self).single_dot,
                0 <= p <= self.pos <= s.len(),
                p < s.len(),
                forall|j: int| p <= j < self.pos ==> !#[trigger] ends_identifier(s)(j),
                ident@ == s.subrange(p, self.pos as int),
            decreases s.len() - self.pos,
        {
            string_push(&mut ident, self.input[self.pos]);
            assert(s.subrange(p, self.pos + 1) =~= s.subrange(p, self.pos as int).push(s[self.pos as int]));
            self.pos = self.pos + 1;
        }
        proof {
            lemma_first_index_from(p, s.len() as int, ends_identifier(s), self.pos as int);
        }
        ident
    }

    /// Reads the text of a numeric literal at the cursor: numeric characters
    /// and `.` (at most one `.` where the cursor was made so).
    pub fn read_number_text(&mut self) -> (r: String)
        ensures
            final(self).chars() == old(self).chars(),
            final(self).single_dot_spec() == old(self).single_dot_spec(),
            final(self).pos_spec() == scan_end(
                old(self).chars(),
                old(self).pos_spec() as int,
                ends_number(old(self).chars(), old(self).pos_spec() as int, old(self).single_dot_spec()),
            ),
            r@ == taken(old(self).chars(), old(self).pos_spec() as int, final(self).pos_spec() as int),
    {
        let ghost s = self.input@;
        let ghost p = self.pos as int;
        let mut text = String::new();
        let mut has_dot = false;
        if self.pos >= self.input.len() {
            return text;
        }
        assert(s.subrange(p, p) =~= text@);
        while self.pos < self.input.len()
            invariant
                s == self.input@,
                0 <= p <= self.pos <= s.len(),
                p < s.len(),
                forall|j: int| p <= j < self.pos ==> !#[trigger] ends_number(s, p, self.single_dot)(j),
                s == old(self).input@,
                p == old(self).pos,
                self.single_dot == old(self).single_dot,
                text@ == s.subrange(p, self.pos as int),
                has_dot == (!is_numeric('.') && s.subrange(p, self.pos as int).contains('.')),
            decreases s.len() - self.pos,
        {
            let ch = self.input[self.pos];
            let ghost before = s.subrange(p, self.pos as int);
            assert(s.subrange(p, self.pos + 1) =~= before.push(ch));
            if char_is_numeric(ch) {
                string_push(&mut text, ch);
                self.pos = self.pos + 1;
                proof {
                    assert((!is_numeric('.') && s.subrange(p, self.pos as int).contains('.')) == (!is_numeric('.')
                        && before.contains('.'))) by {
                        if s.subrange(p, self.pos as int).contains('.') && ch != '.' {
                            let k = choose|k: int| 0 <= k < s.subrange(p, self.pos as int).len()
                                && #[trigger] s.subrange(p, self.pos as int)[k] == '.';
                            assert(before[k] == '.');
                        }
                        if before.contains('.') {
                            let k = choose|k: int| 0 <= k < before.len() && #[trigger] before[k] == '.';
                            assert(s.subrange(p, self.pos as int)[k] == '.');
                        }
                    }
                }
            } else if ch == '.' && !(self.single_dot && has_dot) {
                has_dot = true;
                string_push(&mut text, ch);
                self.pos = self.pos + 1;
                proof {
                    assert(s.subrange(p, self.pos as int)[before.len() as int] == '.');
                }
            } else {
                proof {
                    lemma_first_index_from(p, s.len() as int, ends_number(s, p, self.single_dot), self.pos as int);
                }
                return text;
            }
        }
        proof {
            lemma_first_index_from(p, s.len() as int, ends_number(s, p, self.single_dot), self.pos as int);
        }
        text
    }

    /// The cursor position.
    pub fn position(&self) -> (r: usize)
        ensures
            r == self.pos_spec(),
    {
        self.pos
    }

    /// Moves the cursor to `pos`.
    pub fn set_position(&mut self, pos: usize)
        ensures
            final(self).chars() == old(self).chars(),
            final(self).single_dot_spec() == old(self).single_dot_spec(),
            final(self).pos_spec() == pos,
    {
        self.pos = pos;
    }
}


/// A token as plain values; a number is the text of its literal.
pub enum TokenView {
    Number(Seq<char>),
    Identifier(Seq<char>),
    Plus,
    Minus,
    Star,
    Slash,
    Caret,
    LParen,
    RParen,
    Comma,
    Eof,
}

/// A token of a mathematical expression. A numeric literal keeps its text;
/// the engines read the number from it.
#[derive(Debug, Clone, PartialEq)]
pub enum Token {
    Number(String),
    Identifier(String),
    Plus,
    Minus,
    Star,
    Slash,
    Caret,
    LParen,
    RParen,
    Comma,
    Eof,
}

impl View for Token {
    type V = TokenView;

    open spec fn view(&self) -> TokenView {
        match self {
            Token::Number(t) => TokenView::Number(t@),
            Token::Identifier(t) => TokenView::Identifier(t@),
            Token::Plus => TokenView::Plus,
            Token::Minus => TokenView::Minus,
            Token::Star => TokenView::Star,
            Token::Slash => TokenView::Slash,
            Token::Caret => TokenView::Caret,
            Token::LParen => TokenView::LParen,
            Token::RParen => TokenView::RParen,
            Token::Comma => TokenView::Comma,
            Token::Eof => TokenView::Eof,
        }
    }
}

/// The token that an operator, bracket or comma stands for on its own.
pub open spec fn single_char_token(c: char) -> Option<TokenView> {
    if c == '+' {
        Some(TokenView::Plus)
    } else if c == '-' {
        Some(TokenView::Minus)
    } else if c == '*' {
        Some(TokenView::Star)
    } else if c == '/' {
        Some(TokenView::Slash)
    } else if c == '^' {
        Some(TokenView::Caret)
    } else if c == '(' {
        Some(TokenView::LParen)
    } else if c == ')' {
        Some(TokenView::RParen)
    } else if c == ',' {
        Some(TokenView::Comma)
    } else {
        None
    }
}

/// The token read from position `p`, and the position after it. White space
/// and characters that start no token are skipped; at the end of the input
/// the token is `Eof` and the cursor still moves one step. `single_dot` says
/// whether a numeric literal stops at its second `.`.
pub open spec fn token_from(s: Seq<char>, p: int, single_dot: bool) -> (TokenView, int)
    decreases s.len() - p,
{
    if p >= s.len() {
        (TokenView::Eof, p + 1)
    } else if is_white_space(s[p]) {
        token_from(s, p + 1, single_dot)
    } else if single_char_token(s[p]) is Some {
        (single_char_token(s[p])->0, p + 1)
    } else if is_numeric(s[p]) {
        let e = scan_end(s, p, ends_number(s, p, single_dot));
        (TokenView::Number(s.subrange(p, e)), e)
    } else if is_alphabetic(s[p]) || s[p] == '_' {
        let e = scan_end(s, p, ends_identifier(s));
        (TokenView::Identifier(s.subrange(p, e)), e)
    } else {
        token_from(s, p + 1, single_dot)
    }
}

/// A token other than `Eof` ends after where the scan began and within the input.
pub proof fn lemma_token_advances(s: Seq<char>, p: int, single_dot: bool)
    requires
        token_from(s, p, single_dot).0 !is Eof,
    ensures
        p < token_from(s, p, single_dot).1 <= s.len(),
    decreases s.len() - p,
{
    if p >= s.len() {
    } else if is_white_space(s[p]) {
        lemma_token_advances(s, p + 1, single_dot);
    } else if single_char_token(s[p]) is Some {
    } else if is_numeric(s[p]) {
        lemma_first_index_from_props(p + 1, s.len() as int, ends_number(s, p, single_dot));
    } else if is_alphabetic(s[p]) || s[p] == '_' {
        lemma_first_index_from_props(p + 1, s.len() as int, ends_identifier(s));
    } else {
        lemma_token_advances(s, p + 1, single_dot);
    }
}

/// The tokens read from position `p` up to and including `Eof`.
pub open spec fn tokens_from(s: Seq<char>, p: int, single_dot: bool) -> Seq<TokenView>
    decreases s.len() - p,
{
    let (t, q) = token_from(s, p, single_dot);
    if t is Eof {
        seq![t]
    } else {
        proof {
            lemma_token_advances(s, p, single_dot);
        }
        seq![t] + tokens_from(s, q, single_dot)
    }
}

/// A token list ends with `Eof`, and has no `Eof` before that.
pub proof fn lemma_tokens_end_with_eof(s: Seq<char>, p: int, single_dot: bool)
    ensures
        tokens_from(s, p, single_dot).len() >= 1,
        tokens_from(s, p, single_dot).last() is Eof,
        forall|i: int| 0 <= i < tokens_from(s, p, single_dot).len() - 1 ==> !(#[trigger] tokens_from(s, p, single_dot)[i] is Eof),
    decreases s.len() - p,
{
    let (t, q) = token_from(s, p, single_dot);
    if !(t is Eof) {
        lemma_token_advances(s, p, single_dot);
        lemma_tokens_end_with_eof(s, q, single_dot);
        let rest = tokens_from(s, q, single_dot);
        assert(tokens_from(s, p, single_dot) == seq![t] + rest);
        assert forall|i: int| 0 <= i < tokens_from(s, p, single_dot).len() - 1 implies !(#[trigger] tokens_from(s, p, single_dot)[i] is Eof) by {
            if i > 0 {
                assert(tokens_from(s, p, single_dot)[i] == rest[i - 1]);
            }
        }
    }
}

impl Lexer {
    /// Reads the next token: white space and characters that start no token
    /// are skipped; a number or identifier is read whole.
    pub fn next_token(&mut self) -> (r: Token)
        requires
            old(self).pos_spec() < usize::MAX,
            old(self).chars().len() < usize::MAX,
        ensures
            final(self).chars() == old(self).chars(),
            final(self).single_dot_spec() == old(self).single_dot_spec(),
            (r@, final(self).pos_spec() as int) == token_from(old(self).chars(), old(self).pos_spec() as int, old(self).single_dot_spec()),
    {
        let ghost s = self.input@;
        let ghost d = self.single_dot;
        let ghost goal = token_from(s, self.pos as int, d);
        loop
            invariant
                s == self.input@,
                s == old(self).input@,
                d == self.single_dot,
                d == old(self).single_dot,
                goal == token_from(s, old(self).pos as int, d),
                s.len() < usize::MAX,
                self.pos < usize::MAX,
                token_from(s, self.pos as int, d) == goal,
            decreases s.len() - self.pos,
        {
            if self.pos >= self.input.len() {
                self.pos = self.pos + 1;
                return Token::Eof;
            }
            let ch = self.input[self.pos];
            if char_is_whitespace(ch) {
                self.pos = self.pos + 1;
            } else {
                match ch {
                    '+' => {
                        self.pos = self.pos + 1;
                        return Token::Plus;
                    },
                    '-' => {
                        self.pos = self.pos + 1;
                        return Token::Minus;
                    },
                    '*' => {
                        self.pos = self.pos + 1;
                        return Token::Star;
                    },
                    '/' => {
                        self.pos = self.pos + 1;
                        return Token::Slash;
                    },
                    '^' => {
                        self.pos = self.pos + 1;
                        return Token::Caret;
                    },
                    '(' => {
                        self.pos = self.pos + 1;
                        return Token::LParen;
                    },
                    ')' => {
                        self.pos = self.pos + 1;
                        return Token::RParen;
                    },
                    ',' => {
                        self.pos = self.pos + 1;
                        return Token::Comma;
                    },
                    _ => {},
                }
                if char_is_numeric(ch) {
                    let text = self.read_number_text();
                    return Token::Number(text);
                }
                if char_is_alphabetic(ch) || ch == '_' {
                    let text = self.read_identifier();
                    return Token::Identifier(text);
                }
                self.pos = self.pos + 1;
            }
        }
    }

    /// Reads every token up to and including `Eof`.
    pub fn tokenize(&mut self) -> (r: Vec<Token>)
        requires
            old(self).pos_spec() < usize::MAX,
            old(self).chars().len() < usize::MAX,
        ensures
            final(self).chars() == old(self).chars(),
            final(self).single_dot_spec() == old(self).single_dot_spec(),
            r@.map_values(|t: Token| t@) == tokens_from(old(self).chars(), old(self).pos_spec() as int, old(self).single_dot_spec()),
    {
        let ghost s = self.input@;
        let ghost d = self.single_dot;
        let ghost p0 = self.pos as int;
        let mut tokens: Vec<Token> = Vec::new();
        loop
            invariant
                s == self.input@,
                s == old(self).input@,
                d == self.single_dot,
                d == old(self).single_dot,
                p0 == old(self).pos,
                s.len() < usize::MAX,
                self.pos < usize::MAX,
                tokens@.map_values(|t: Token| t@) + tokens_from(s, self.pos as int, d) == tokens_from(s, p0, d),
            decreases s.len() - self.pos,
        {
            let ghost before = self.pos as int;
            let ghost seen = tokens@.map_values(|t: Token| t@);
            let t = self.next_token();
            let is_eof = matches!(t, Token::Eof);
            tokens.push(t);
            proof {
                assert(tokens@.map_values(|t: Token| t@) =~= seen.push(token_from(s, before, d).0));
            }
            if is_eof {
                assert(tokens_from(s, before, d) =~= seq![token_from(s, before, d).0]);
                assert(tokens@.map_values(|t: Token| t@) =~= seen + tokens_from(s, before, d));
                return tokens;
            }
            proof {
                lemma_token_advances(s, before, d);
                assert(tokens_from(s, before, d) =~= seq![token_from(s, before, d).0] + tokens_from(s, self.pos as int, d));
                assert(seen + tokens_from(s, before, d) =~= seen.push(token_from(s, before, d).0) + tokens_from(
                    s,
                    self.pos as int,
                    d,
                ));
            }
        }
    }
}

} // verus!
