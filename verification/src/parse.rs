//! The grammar of pass expressions.
//!
//! ```text
//! expression := conjunction [ "or" expression ]
//! conjunction := comparison [ "and" conjunction ]
//! comparison := primary [ "=" primary ]
//! primary := "$" | string | "true" | "false" | "(" expression ")"
//!          | "$contains" "(" expression "," expression ")"
//!          | "$not" "(" expression ")"
//! string := '"' any characters but '"' '"' | "'" any characters but "'" "'"
//! ```
//!
//! Blanks may stand between tokens. A word is a run of the letters `a` to `z`.
//! An expression nests at most [`MAX_DEPTH`] deep, counting every pair of brackets and
//! every `and` and `or`.

use vstd::prelude::*;
use vstd::string::*;
use crate::expr::Expr;
use crate::expr::Formula;

verus! {

/// How deep an expression may nest.
pub const MAX_DEPTH: usize = 64;

/// Why a text is no expression.
#[derive(Debug, Clone, Copy, PartialEq, Eq, Structural)]
pub enum ExpressionError {
    /// What stands at this offset, counted in characters, cannot stand there. The
    /// offset is the length of the text where the text ends too early.
    Unexpected(usize),
    /// At this offset the expression nests deeper than [`MAX_DEPTH`].
    TooDeep(usize),
}

/// What parsing a part of a text gives: the expression and the offset after it.
pub type Parsed = Result<(Formula, int), ExpressionError>;

pub open spec fn is_blank(c: char) -> bool {
    c == ' ' || c == '\t' || c == '\n' || c == '\r'
}

pub open spec fn is_letter(c: char) -> bool {
    'a' <= c && c <= 'z'
}

/// The offset of the first character from `at` on that is no blank.
pub open spec fn skip_blank(s: Seq<char>, at: int) -> int
    decreases s.len() - at,
{
    if 0 <= at < s.len() && is_blank(s[at]) {
        skip_blank(s, at + 1)
    } else {
        at
    }
}

/// The offset of the first character from `at` on that is no letter.
pub open spec fn word_end(s: Seq<char>, at: int) -> int
    decreases s.len() - at,
{
    if 0 <= at < s.len() && is_letter(s[at]) {
        word_end(s, at + 1)
    } else {
        at
    }
}

/// The offset of the first `quote` from `at` on, or the length where there is none.
pub open spec fn quote_end(s: Seq<char>, at: int, quote: char) -> int
    decreases s.len() - at,
{
    if 0 <= at < s.len() && s[at] != quote {
        quote_end(s, at + 1, quote)
    } else {
        at
    }
}

/// The offset after the character `c`, which must be the next that is no blank.
pub open spec fn expect(s: Seq<char>, at: int, c: char) -> Result<int, ExpressionError> {
    let p = skip_blank(s, at);
    if 0 <= p < s.len() && s[p] == c {
        Ok(p + 1)
    } else {
        Err(ExpressionError::Unexpected(p as usize))
    }
}

/// The word that starts at the next character that is no blank, and where it ends.
pub open spec fn next_word(s: Seq<char>, at: int) -> (Seq<char>, int) {
    let p = skip_blank(s, at);
    let end = word_end(s, p);
    (s.subrange(p, end), end)
}

pub open spec fn parse_primary(s: Seq<char>, at: int, depth: nat) -> Parsed
    decreases depth, 0nat,
{
    let p = skip_blank(s, at);
    if !(0 <= p < s.len()) {
        Err(ExpressionError::Unexpected(p as usize))
    } else if s[p] == '"' || s[p] == '\'' {
        let end = quote_end(s, p + 1, s[p]);
        if end < s.len() {
            Ok((Formula::Text(s.subrange(p + 1, end)), end + 1))
        } else {
            Err(ExpressionError::Unexpected(end as usize))
        }
    } else if s[p] == '(' {
        if depth == 0 {
            Err(ExpressionError::TooDeep(p as usize))
        } else {
            match parse_expression(s, p + 1, (depth - 1) as nat) {
                Err(error) => Err(error),
                Ok((inner, next)) => match expect(s, next, ')') {
                    Err(error) => Err(error),
                    Ok(after) => Ok((inner, after)),
                },
            }
        }
    } else if s[p] == '$' {
        let end = word_end(s, p + 1);
        let name = s.subrange(p + 1, end);
        if name.len() == 0 {
            Ok((Formula::Input, p + 1))
        } else if name == "not"@ || name == "contains"@ {
            if depth == 0 {
                Err(ExpressionError::TooDeep(p as usize))
            } else {
                match expect(s, end, '(') {
                    Err(error) => Err(error),
                    Ok(open) => match parse_expression(s, open, (depth - 1) as nat) {
                        Err(error) => Err(error),
                        Ok((first, next)) => if name == "not"@ {
                            match expect(s, next, ')') {
                                Err(error) => Err(error),
                                Ok(after) => Ok((Formula::Not(Box::new(first)), after)),
                            }
                        } else {
                            match expect(s, next, ',') {
                                Err(error) => Err(error),
                                Ok(comma) => match parse_expression(s, comma, (depth - 1) as nat) {
                                    Err(error) => Err(error),
                                    Ok((second, last)) => match expect(s, last, ')') {
                                        Err(error) => Err(error),
                                        Ok(after) => Ok(
                                            (
                                                Formula::Contains(
                                                    Box::new(first),
                                                    Box::new(second),
                                                ),
                                                after,
                                            ),
                                        ),
                                    },
                                },
                            }
                        },
                    },
                }
            }
        } else {
            Err(ExpressionError::Unexpected(p as usize))
        }
    } else if is_letter(s[p]) {
        let end = word_end(s, p);
        let word = s.subrange(p, end);
        if word == "true"@ {
            Ok((Formula::Bool(true), end))
        } else if word == "false"@ {
            Ok((Formula::Bool(false), end))
        } else {
            Err(ExpressionError::Unexpected(p as usize))
        }
    } else {
        Err(ExpressionError::Unexpected(p as usize))
    }
}

pub open spec fn parse_comparison(s: Seq<char>, at: int, depth: nat) -> Parsed
    decreases depth, 1nat,
{
    match parse_primary(s, at, depth) {
        Err(error) => Err(error),
        Ok((left, next)) => {
            let p = skip_blank(s, next);
            if 0 <= p < s.len() && s[p] == '=' {
                match parse_primary(s, p + 1, depth) {
                    Err(error) => Err(error),
                    Ok((right, after)) => Ok(
                        (Formula::Equals(Box::new(left), Box::new(right)), after),
                    ),
                }
            } else {
                Ok((left, next))
            }
        },
    }
}

pub open spec fn parse_conjunction(s: Seq<char>, at: int, depth: nat) -> Parsed
    decreases depth, 2nat,
{
    match parse_comparison(s, at, depth) {
        Err(error) => Err(error),
        Ok((left, next)) => {
            let (word, end) = next_word(s, next);
            if word == "and"@ {
                if depth == 0 {
                    Err(ExpressionError::TooDeep(skip_blank(s, next) as usize))
                } else {
                    match parse_conjunction(s, end, (depth - 1) as nat) {
                        Err(error) => Err(error),
                        Ok((right, after)) => Ok(
                            (Formula::And(Box::new(left), Box::new(right)), after),
                        ),
                    }
                }
            } else {
                Ok((left, next))
            }
        },
    }
}

pub open spec fn parse_expression(s: Seq<char>, at: int, depth: nat) -> Parsed
    decreases depth, 3nat,
{
    match parse_conjunction(s, at, depth) {
        Err(error) => Err(error),
        Ok((left, next)) => {
            let (word, end) = next_word(s, next);
            if word == "or"@ {
                if depth == 0 {
                    Err(ExpressionError::TooDeep(skip_blank(s, next) as usize))
                } else {
                    match parse_expression(s, end, (depth - 1) as nat) {
                        Err(error) => Err(error),
                        Ok((right, after)) => Ok(
                            (Formula::Or(Box::new(left), Box::new(right)), after),
                        ),
                    }
                }
            } else {
                Ok((left, next))
            }
        },
    }
}

/// The expression that a text is: one expression, with nothing but blanks after it.
pub open spec fn parse(s: Seq<char>) -> Result<Formula, ExpressionError> {
    match parse_expression(s, 0, MAX_DEPTH as nat) {
        Err(error) => Err(error),
        Ok((formula, next)) => {
            let end = skip_blank(s, next);
            if end >= s.len() {
                Ok(formula)
            } else {
                Err(ExpressionError::Unexpected(end as usize))
            }
        },
    }
}

/// Whether an outcome of the parser is the stated one.
pub open spec fn is_parsed(r: Result<(Expr, usize), ExpressionError>, stated: Parsed) -> bool {
    match r {
        Ok((expr, next)) => stated == Ok::<(Formula, int), ExpressionError>((expr@, next as int)),
        Err(error) => stated == Err::<(Formula, int), ExpressionError>(error),
    }
}

/// Whether the parser stopped inside the text.
pub open spec fn stops_within(r: Result<(Expr, usize), ExpressionError>, length: nat) -> bool {
    r matches Ok((_, next)) ==> next <= length
}

fn blank(c: char) -> (r: bool)
    ensures
        r == is_blank(c),
{
    c == ' ' || c == '\t' || c == '\n' || c == '\r'
}

fn letter(c: char) -> (r: bool)
    ensures
        r == is_letter(c),
{
    'a' <= c && c <= 'z'
}

fn skip(s: &[char], at: usize) -> (p: usize)
    requires
        at <= s@.len(),
    ensures
        p == skip_blank(s@, at as int),
        at <= p <= s@.len(),
{
    let mut p = at;
    while p < s.len() && blank(s[p])
        invariant
            at <= p <= s@.len(),
            skip_blank(s@, p as int) == skip_blank(s@, at as int),
        decreases s@.len() - p,
    {
        p += 1;
    }
    p
}

fn find_word_end(s: &[char], at: usize) -> (p: usize)
    requires
        at <= s@.len(),
    ensures
        p == word_end(s@, at as int),
        at <= p <= s@.len(),
{
    let mut p = at;
    while p < s.len() && letter(s[p])
        invariant
            at <= p <= s@.len(),
            word_end(s@, p as int) == word_end(s@, at as int),
        decreases s@.len() - p,
    {
        p += 1;
    }
    p
}

fn find_quote_end(s: &[char], at: usize, quote: char) -> (p: usize)
    requires
        at <= s@.len(),
    ensures
        p == quote_end(s@, at as int, quote),
        at <= p <= s@.len(),
{
    let mut p = at;
    while p < s.len() && s[p] != quote
        invariant
            at <= p <= s@.len(),
            quote_end(s@, p as int, quote) == quote_end(s@, at as int, quote),
        decreases s@.len() - p,
    {
        p += 1;
    }
    p
}

fn expect_char(s: &[char], at: usize, c: char) -> (r: Result<usize, ExpressionError>)
    requires
        at <= s@.len(),
    ensures
        match r {
            Ok(next) => expect(s@, at as int, c) == Ok::<int, ExpressionError>(next as int) && next
                <= s@.len(),
            Err(error) => expect(s@, at as int, c) == Err::<int, ExpressionError>(error),
        },
{
    let p = skip(s, at);
    if p < s.len() && s[p] == c {
        Ok(p + 1)
    } else {
        Err(ExpressionError::Unexpected(p))
    }
}

/// The characters of a part of the text, copied.
fn copy_range(s: &[char], from: usize, to: usize) -> (v: Vec<char>)
    requires
        from <= to <= s@.len(),
    ensures
        v@ == s@.subrange(from as int, to as int),
{
    let mut v: Vec<char> = Vec::new();
    let mut i = from;
    while i < to
        invariant
            from <= i <= to <= s@.len(),
            v@ == s@.subrange(from as int, i as int),
        decreases to - i,
    {
        v.push(s[i]);
        i += 1;
    }
    v
}

/// Whether a part of the text is the given word.
fn word_is(s: &[char], from: usize, to: usize, word: &str) -> (r: bool)
    requires
        from <= to <= s@.len(),
    ensures
        r == (s@.subrange(from as int, to as int) == word@),
{
    let length = word.unicode_len();
    if to - from != length {
        return false;
    }
    let mut i: usize = 0;
    while i < length
        invariant
            i <= length,
            length == word@.len(),
            to - from == length,
            from <= to <= s@.len(),
            forall|k: int| 0 <= k < i ==> s@[from + k] == word@[k],
        decreases length - i,
    {
        if s[from + i] != word.get_char(i) {
            return false;
        }
        i += 1;
    }
    assert(s@.subrange(from as int, to as int) =~= word@);
    true
}

fn read_primary(s: &[char], at: usize, depth: usize) -> (r: Result<(Expr, usize), ExpressionError>)
    requires
        at <= s@.len(),
    ensures
        is_parsed(r, parse_primary(s@, at as int, depth as nat)),
        stops_within(r, s@.len()),
    decreases depth, 0nat,
{
    let p = skip(s, at);
    if p >= s.len() {
        return Err(ExpressionError::Unexpected(p));
    }
    let c = s[p];
    if c == '"' || c == '\'' {
        let end = find_quote_end(s, p + 1, c);
        if end < s.len() {
            Ok((Expr::Text(copy_range(s, p + 1, end)), end + 1))
        } else {
            Err(ExpressionError::Unexpected(end))
        }
    } else if c == '(' {
        if depth == 0 {
            return Err(ExpressionError::TooDeep(p));
        }
        let (inner, next) = match read_expression(s, p + 1, depth - 1) {
            Err(error) => { return Err(error); },
            Ok(read) => read,
        };
        match expect_char(s, next, ')') {
            Err(error) => Err(error),
            Ok(after) => Ok((inner, after)),
        }
    } else if c == '$' {
        let end = find_word_end(s, p + 1);
        if end == p + 1 {
            return Ok((Expr::Input, p + 1));
        }
        let negation = word_is(s, p + 1, end, "not");
        if !negation && !word_is(s, p + 1, end, "contains") {
            return Err(ExpressionError::Unexpected(p));
        }
        if depth == 0 {
            return Err(ExpressionError::TooDeep(p));
        }
        let open = match expect_char(s, end, '(') {
            Err(error) => { return Err(error); },
            Ok(open) => open,
        };
        let (first, next) = match read_expression(s, open, depth - 1) {
            Err(error) => { return Err(error); },
            Ok(read) => read,
        };
        if negation {
            match expect_char(s, next, ')') {
                Err(error) => Err(error),
                Ok(after) => Ok((Expr::Not(Box::new(first)), after)),
            }
        } else {
            let comma = match expect_char(s, next, ',') {
                Err(error) => { return Err(error); },
                Ok(comma) => comma,
            };
            let (second, last) = match read_expression(s, comma, depth - 1) {
                Err(error) => { return Err(error); },
                Ok(read) => read,
            };
            match expect_char(s, last, ')') {
                Err(error) => Err(error),
                Ok(after) => Ok((Expr::Contains(Box::new(first), Box::new(second)), after)),
            }
        }
    } else if letter(c) {
        let end = find_word_end(s, p);
        if word_is(s, p, end, "true") {
            Ok((Expr::Bool(true), end))
        } else if word_is(s, p, end, "false") {
            Ok((Expr::Bool(false), end))
        } else {
            Err(ExpressionError::Unexpected(p))
        }
    } else {
        Err(ExpressionError::Unexpected(p))
    }
}

fn read_comparison(s: &[char], at: usize, depth: usize) -> (r: Result<
    (Expr, usize),
    ExpressionError,
>)
    requires
        at <= s@.len(),
    ensures
        is_parsed(r, parse_comparison(s@, at as int, depth as nat)),
        stops_within(r, s@.len()),
    decreases depth, 1nat,
{
    let (left, next) = match read_primary(s, at, depth) {
        Err(error) => { return Err(error); },
        Ok(read) => read,
    };
    let p = skip(s, next);
    if p < s.len() && s[p] == '=' {
        match read_primary(s, p + 1, depth) {
            Err(error) => Err(error),
            Ok((right, after)) => Ok((Expr::Equals(Box::new(left), Box::new(right)), after)),
        }
    } else {
        Ok((left, next))
    }
}

fn read_conjunction(s: &[char], at: usize, depth: usize) -> (r: Result<
    (Expr, usize),
    ExpressionError,
>)
    requires
        at <= s@.len(),
    ensures
        is_parsed(r, parse_conjunction(s@, at as int, depth as nat)),
        stops_within(r, s@.len()),
    decreases depth, 2nat,
{
    let (left, next) = match read_comparison(s, at, depth) {
        Err(error) => { return Err(error); },
        Ok(read) => read,
    };
    let p = skip(s, next);
    let end = find_word_end(s, p);
    if word_is(s, p, end, "and") {
        if depth == 0 {
            return Err(ExpressionError::TooDeep(p));
        }
        match read_conjunction(s, end, depth - 1) {
            Err(error) => Err(error),
            Ok((right, after)) => Ok((Expr::And(Box::new(left), Box::new(right)), after)),
        }
    } else {
        Ok((left, next))
    }
}

fn read_expression(s: &[char], at: usize, depth: usize) -> (r: Result<
    (Expr, usize),
    ExpressionError,
>)
    requires
        at <= s@.len(),
    ensures
        is_parsed(r, parse_expression(s@, at as int, depth as nat)),
        stops_within(r, s@.len()),
    decreases depth, 3nat,
{
    let (left, next) = match read_conjunction(s, at, depth) {
        Err(error) => { return Err(error); },
        Ok(read) => read,
    };
    let p = skip(s, next);
    let end = find_word_end(s, p);
    if word_is(s, p, end, "or") {
        if depth == 0 {
            return Err(ExpressionError::TooDeep(p));
        }
        match read_expression(s, end, depth - 1) {
            Err(error) => Err(error),
            Ok((right, after)) => Ok((Expr::Or(Box::new(left), Box::new(right)), after)),
        }
    } else {
        Ok((left, next))
    }
}

/// Reads a text as one expression.
pub fn parse_expr(s: &[char]) -> (r: Result<Expr, ExpressionError>)
    ensures
        match r {
            Ok(expr) => parse(s@) == Ok::<Formula, ExpressionError>(expr@),
            Err(error) => parse(s@) == Err::<Formula, ExpressionError>(error),
        },
{
    let (expr, next) = match read_expression(s, 0, MAX_DEPTH) {
        Err(error) => { return Err(error); },
        Ok(read) => read,
    };
    let end = skip(s, next);
    if end >= s.len() {
        Ok(expr)
    } else {
        Err(ExpressionError::Unexpected(end))
    }
}

} // verus!
