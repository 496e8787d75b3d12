//! The canonical text of an expression, and that the grammar reads it back.
//!
//! The canonical text brackets every operand of `=`, `and` and `or` and has no blanks.
//! The grammar has no escapes, so a literal that holds a double quote has no
//! canonical text.

use vstd::prelude::*;
use crate::expr::Expr;
use crate::expr::Formula;
use crate::parse::ExpressionError;
use crate::parse::MAX_DEPTH;
use crate::parse::expect;
use crate::parse::is_blank;
use crate::parse::is_letter;
use crate::parse::next_word;
use crate::parse::parse;
use crate::parse::parse_comparison;
use crate::parse::parse_conjunction;
use crate::parse::parse_expression;
use crate::parse::parse_primary;
use crate::parse::quote_end;
use crate::parse::skip_blank;
use crate::parse::word_end;

verus! {

/// The canonical text of an expression.
pub open spec fn render(formula: Formula) -> Seq<char>
    decreases formula,
{
    match formula {
        Formula::Input => seq!['$'],
        Formula::Text(text) => seq!['"'] + text + seq!['"'],
        Formula::Bool(value) => if value {
            "true"@
        } else {
            "false"@
        },
        Formula::Contains(a, b) => "$contains("@ + render(*a) + seq![','] + render(*b) + seq![')'],
        Formula::Equals(a, b) => seq!['('] + render(*a) + ")=("@ + render(*b) + seq![')'],
        Formula::Not(p) => "$not("@ + render(*p) + seq![')'],
        Formula::And(p, q) => seq!['('] + render(*p) + ")and("@ + render(*q) + seq![')'],
        Formula::Or(p, q) => seq!['('] + render(*p) + ")or("@ + render(*q) + seq![')'],
    }
}

/// Whether the expression has a canonical text: no literal holds a double quote.
pub open spec fn writable(formula: Formula) -> bool
    decreases formula,
{
    match formula {
        Formula::Input => true,
        Formula::Text(text) => forall|i: int| 0 <= i < text.len() ==> text[i] != '"',
        Formula::Bool(_) => true,
        Formula::Contains(a, b) => writable(*a) && writable(*b),
        Formula::Equals(a, b) => writable(*a) && writable(*b),
        Formula::Not(p) => writable(*p),
        Formula::And(p, q) => writable(*p) && writable(*q),
        Formula::Or(p, q) => writable(*p) && writable(*q),
    }
}

/// The larger of two numbers.
pub open spec fn larger(a: nat, b: nat) -> nat {
    if a >= b {
        a
    } else {
        b
    }
}

/// How deep the canonical text of an expression nests.
pub open spec fn nesting(formula: Formula) -> nat
    decreases formula,
{
    match formula {
        Formula::Input => 0,
        Formula::Text(_) => 0,
        Formula::Bool(_) => 0,
        Formula::Contains(a, b) => 1 + larger(nesting(*a), nesting(*b)),
        Formula::Equals(a, b) => 1 + larger(nesting(*a), nesting(*b)),
        Formula::Not(p) => 1 + nesting(*p),
        Formula::And(p, q) => larger(1 + nesting(*p), 2 + nesting(*q)),
        Formula::Or(p, q) => larger(1 + nesting(*p), 2 + nesting(*q)),
    }
}

/// Whether an expression may end at the offset: the text ends there, or a closing
/// bracket or a comma follows.
pub open spec fn closed_after(s: Seq<char>, at: int) -> bool {
    at >= s.len() || s[at] == ')' || s[at] == ','
}

/// Whether the text holds `part` from the offset `at` on.
pub open spec fn holds(s: Seq<char>, at: int, part: Seq<char>) -> bool {
    0 <= at && at + part.len() <= s.len() && s.subrange(at, at + part.len()) == part
}

/// A text that holds two parts in a row holds each of them.
proof fn lemma_split(s: Seq<char>, at: int, left: Seq<char>, right: Seq<char>)
    requires
        holds(s, at, left + right),
    ensures
        holds(s, at, left),
        holds(s, at + left.len(), right),
{
    let whole = s.subrange(at, at + left.len() + right.len());
    assert(s.subrange(at, at + left.len()) =~= whole.subrange(0, left.len() as int));
    assert((left + right).subrange(0, left.len() as int) =~= left);
    assert(s.subrange(at + left.len(), at + left.len() + right.len()) =~= whole.subrange(
        left.len() as int,
        whole.len() as int,
    ));
    assert((left + right).subrange(left.len() as int, (left + right).len() as int) =~= right);
}

/// The character at an offset inside a part that the text holds.
proof fn lemma_char(s: Seq<char>, at: int, part: Seq<char>, i: int)
    requires
        holds(s, at, part),
        0 <= i < part.len(),
    ensures
        s[at + i] == part[i],
{
}

/// A run of letters is one word where no letter follows it.
proof fn lemma_word(s: Seq<char>, at: int, length: nat)
    requires
        0 <= at,
        at + length <= s.len(),
        forall|i: int| at <= i < at + length ==> is_letter(#[trigger] s[i]),
        at + length == s.len() || !is_letter(s[at + length]),
    ensures
        word_end(s, at) == at + length,
    decreases length,
{
    if length > 0 {
        lemma_word(s, at + 1, (length - 1) as nat);
    }
}

/// A literal ends at the first quote after it.
proof fn lemma_quote(s: Seq<char>, at: int, length: nat, quote: char)
    requires
        0 <= at,
        at + length < s.len(),
        forall|i: int| at <= i < at + length ==> (#[trigger] s[i]) != quote,
        s[at + length] == quote,
    ensures
        quote_end(s, at, quote) == at + length,
    decreases length,
{
    if length > 0 {
        lemma_quote(s, at + 1, (length - 1) as nat, quote);
    }
}

/// Where an expression may end, no `=`, `and` or `or` goes on with it.
proof fn lemma_ends_here(s: Seq<char>, at: int)
    requires
        0 <= at <= s.len(),
        closed_after(s, at),
    ensures
        skip_blank(s, at) == at,
        !(at < s.len() && s[at] == '='),
        next_word(s, at) == (Seq::<char>::empty(), at),
        next_word(s, at).0 != "and"@,
        next_word(s, at).0 != "or"@,
{
    reveal_strlit("and");
    reveal_strlit("or");
    assert(s.subrange(at, at) =~= Seq::<char>::empty());
}

/// What the grammar reads as a primary and may end there, it reads as an expression.
proof fn lemma_primary_is_expression(
    s: Seq<char>,
    at: int,
    depth: nat,
    formula: Formula,
    next: int,
)
    requires
        0 <= next <= s.len(),
        closed_after(s, next),
        parse_primary(s, at, depth) == Ok::<(Formula, int), ExpressionError>((formula, next)),
    ensures
        parse_comparison(s, at, depth) == Ok::<(Formula, int), ExpressionError>((formula, next)),
        parse_conjunction(s, at, depth) == Ok::<(Formula, int), ExpressionError>((formula, next)),
        parse_expression(s, at, depth) == Ok::<(Formula, int), ExpressionError>((formula, next)),
{
    lemma_ends_here(s, next);
}

/// A bracketed expression is a primary.
proof fn lemma_bracketed(s: Seq<char>, at: int, depth: nat, formula: Formula, close: int)
    requires
        0 <= at < close < s.len(),
        depth > 0,
        s[at] == '(',
        s[close] == ')',
        parse_expression(s, at + 1, (depth - 1) as nat) == Ok::<(Formula, int), ExpressionError>(
            (formula, close),
        ),
    ensures
        parse_primary(s, at, depth) == Ok::<(Formula, int), ExpressionError>(
            (formula, close + 1),
        ),
{
    assert(expect(s, close, ')') == Ok::<int, ExpressionError>(close + 1));
}

/// Whether the text holds, from `at` on, a bracket, `first`, `sign`, `second` and the
/// closing bracket.
pub open spec fn holds_infix(
    s: Seq<char>,
    at: int,
    first: Seq<char>,
    sign: Seq<char>,
    second: Seq<char>,
) -> bool {
    let middle = at + 1 + first.len();
    let close = middle + sign.len() + second.len();
    &&& 0 <= at && close < s.len()
    &&& s[at] == '('
    &&& holds(s, at + 1, first)
    &&& holds(s, middle, sign)
    &&& holds(s, middle + sign.len(), second)
    &&& s[close] == ')'
}

/// Whether the text holds, from `at` on, `head`, `first` and the character `after`.
pub open spec fn holds_call(
    s: Seq<char>,
    at: int,
    head: Seq<char>,
    first: Seq<char>,
    after: char,
) -> bool {
    let close = at + head.len() + first.len();
    &&& 0 <= at && close < s.len()
    &&& holds(s, at, head)
    &&& holds(s, at + head.len(), first)
    &&& s[close] == after
}

proof fn lemma_holds_infix(
    s: Seq<char>,
    at: int,
    first: Seq<char>,
    sign: Seq<char>,
    second: Seq<char>,
)
    requires
        holds(s, at, seq!['('] + first + sign + second + seq![')']),
    ensures
        holds_infix(s, at, first, sign, second),
{
    lemma_split(s, at, seq!['('] + first + sign + second, seq![')']);
    lemma_split(s, at, seq!['('] + first + sign, second);
    lemma_split(s, at, seq!['('] + first, sign);
    lemma_split(s, at, seq!['('], first);
    lemma_char(s, at, seq!['('], 0);
    lemma_char(s, at + 1 + first.len() + sign.len() + second.len(), seq![')'], 0);
}

proof fn lemma_holds_call(s: Seq<char>, at: int, head: Seq<char>, first: Seq<char>, after: char)
    requires
        holds(s, at, head + first + seq![after]),
    ensures
        holds_call(s, at, head, first, after),
{
    lemma_split(s, at, head + first, seq![after]);
    lemma_split(s, at, head, first);
    lemma_char(s, at + head.len() + first.len(), seq![after], 0);
}

/// `$` alone reads back as the text under test.
proof fn lemma_reads_input(s: Seq<char>, at: int, depth: nat)
    requires
        holds(s, at, seq!['$']),
        closed_after(s, at + 1),
    ensures
        parse_expression(s, at, depth) == Ok::<(Formula, int), ExpressionError>(
            (Formula::Input, at + 1),
        ),
{
    lemma_char(s, at, seq!['$'], 0);
    assert(word_end(s, at + 1) == at + 1);
    lemma_primary_is_expression(s, at, depth, Formula::Input, at + 1);
}

/// A literal in double quotes reads back.
proof fn lemma_reads_text(s: Seq<char>, at: int, literal: Seq<char>, depth: nat)
    requires
        holds(s, at, seq!['"'] + literal + seq!['"']),
        closed_after(s, at + literal.len() + 2),
        forall|i: int| 0 <= i < literal.len() ==> literal[i] != '"',
    ensures
        parse_expression(s, at, depth) == Ok::<(Formula, int), ExpressionError>(
            (Formula::Text(literal), at + literal.len() + 2),
        ),
{
    lemma_holds_call(s, at, seq!['"'], literal, '"');
    lemma_char(s, at, seq!['"'], 0);
    assert forall|i: int| at + 1 <= i < at + 1 + literal.len() implies (#[trigger] s[i])
        != '"' by {
        lemma_char(s, at + 1, literal, i - at - 1);
    }
    lemma_quote(s, at + 1, literal.len(), '"');
    assert(skip_blank(s, at) == at);
    lemma_primary_is_expression(s, at, depth, Formula::Text(literal), at + literal.len() + 2);
}

/// `true` and `false` read back.
proof fn lemma_reads_bool(s: Seq<char>, at: int, value: bool, depth: nat)
    requires
        holds(s, at, render(Formula::Bool(value))),
        closed_after(s, at + render(Formula::Bool(value)).len()),
    ensures
        parse_expression(s, at, depth) == Ok::<(Formula, int), ExpressionError>(
            (Formula::Bool(value), at + render(Formula::Bool(value)).len()),
        ),
{
    reveal_strlit("true");
    reveal_strlit("false");
    let text = render(Formula::Bool(value));
    lemma_char(s, at, text, 0);
    lemma_char(s, at, text, 1);
    lemma_char(s, at, text, 2);
    lemma_char(s, at, text, 3);
    if !value {
        lemma_char(s, at, text, 4);
    }
    lemma_word(s, at, text.len());
    lemma_primary_is_expression(s, at, depth, Formula::Bool(value), at + text.len());
}

/// `$not(p)` reads back where `p` does.
proof fn lemma_reads_not(s: Seq<char>, at: int, p: Formula, depth: nat)
    requires
        depth > 0,
        holds_call(s, at, "$not("@, render(p), ')'),
        closed_after(s, at + render(p).len() + 6),
        parse_expression(s, at + 5, (depth - 1) as nat) == Ok::<(Formula, int), ExpressionError>(
            (p, at + 5 + render(p).len()),
        ),
    ensures
        parse_expression(s, at, depth) == Ok::<(Formula, int), ExpressionError>(
            (Formula::Not(Box::new(p)), at + render(p).len() + 6),
        ),
{
    reveal_strlit("$not(");
    reveal_strlit("not");
    reveal_strlit("contains");
    let head = "$not("@;
    let close = at + 5 + render(p).len();
    lemma_char(s, at, head, 0);
    lemma_char(s, at, head, 1);
    lemma_char(s, at, head, 2);
    lemma_char(s, at, head, 3);
    lemma_char(s, at, head, 4);
    lemma_word(s, at + 1, 3);
    assert(s.subrange(at + 1, at + 4) =~= "not"@);
    assert(skip_blank(s, at + 4) == at + 4);
    lemma_primary_is_expression(s, at, depth, Formula::Not(Box::new(p)), close + 1);
}

/// `$contains(a,b)` reads back where `a` and `b` do.
proof fn lemma_reads_contains(s: Seq<char>, at: int, a: Formula, b: Formula, depth: nat)
    requires
        depth > 0,
        holds_call(s, at, "$contains("@, render(a), ','),
        holds_call(s, at + 11 + render(a).len(), Seq::empty(), render(b), ')'),
        closed_after(s, at + render(a).len() + render(b).len() + 12),
        parse_expression(s, at + 10, (depth - 1) as nat) == Ok::<(Formula, int), ExpressionError>(
            (a, at + 10 + render(a).len()),
        ),
        parse_expression(s, at + 11 + render(a).len(), (depth - 1) as nat) == Ok::<
            (Formula, int),
            ExpressionError,
        >((b, at + 11 + render(a).len() + render(b).len())),
    ensures
        parse_expression(s, at, depth) == Ok::<(Formula, int), ExpressionError>(
            (
                Formula::Contains(Box::new(a), Box::new(b)),
                at + render(a).len() + render(b).len() + 12,
            ),
        ),
{
    reveal_strlit("$contains(");
    reveal_strlit("not");
    reveal_strlit("contains");
    let head = "$contains("@;
    let comma = at + 10 + render(a).len();
    let close = comma + 1 + render(b).len();
    let whole = Formula::Contains(Box::new(a), Box::new(b));
    lemma_char(s, at, head, 0);
    lemma_char(s, at, head, 1);
    lemma_char(s, at, head, 2);
    lemma_char(s, at, head, 3);
    lemma_char(s, at, head, 4);
    lemma_char(s, at, head, 5);
    lemma_char(s, at, head, 6);
    lemma_char(s, at, head, 7);
    lemma_char(s, at, head, 8);
    lemma_char(s, at, head, 9);
    lemma_word(s, at + 1, 8);
    assert(s.subrange(at + 1, at + 9) =~= "contains"@);
    lemma_primary_is_expression(s, at, depth, whole, close + 1);
}

/// `(a)=(b)` reads back where `a` and `b` do.
proof fn lemma_reads_equals(s: Seq<char>, at: int, a: Formula, b: Formula, depth: nat)
    requires
        depth > 0,
        holds_infix(s, at, render(a), ")=("@, render(b)),
        closed_after(s, at + render(a).len() + render(b).len() + 5),
        parse_expression(s, at + 1, (depth - 1) as nat) == Ok::<(Formula, int), ExpressionError>(
            (a, at + 1 + render(a).len()),
        ),
        parse_expression(s, at + 4 + render(a).len(), (depth - 1) as nat) == Ok::<
            (Formula, int),
            ExpressionError,
        >((b, at + 4 + render(a).len() + render(b).len())),
    ensures
        parse_expression(s, at, depth) == Ok::<(Formula, int), ExpressionError>(
            (
                Formula::Equals(Box::new(a), Box::new(b)),
                at + render(a).len() + render(b).len() + 5,
            ),
        ),
{
    reveal_strlit(")=(");
    let sign = ")=("@;
    let middle = at + 1 + render(a).len();
    let close = middle + 3 + render(b).len();
    let whole = Formula::Equals(Box::new(a), Box::new(b));
    lemma_char(s, middle, sign, 0);
    lemma_char(s, middle, sign, 1);
    lemma_char(s, middle, sign, 2);
    lemma_bracketed(s, at, depth, a, middle);
    lemma_bracketed(s, middle + 2, depth, b, close);
    assert(skip_blank(s, middle + 1) == middle + 1);
    assert(parse_comparison(s, at, depth) == Ok::<(Formula, int), ExpressionError>(
        (whole, close + 1),
    ));
    lemma_ends_here(s, close + 1);
    assert(parse_conjunction(s, at, depth) == Ok::<(Formula, int), ExpressionError>(
        (whole, close + 1),
    ));
}

/// `(p)and(q)` reads back where `p` and `q` do.
proof fn lemma_reads_and(s: Seq<char>, at: int, p: Formula, q: Formula, depth: nat)
    requires
        depth > 1,
        holds_infix(s, at, render(p), ")and("@, render(q)),
        closed_after(s, at + render(p).len() + render(q).len() + 7),
        parse_expression(s, at + 1, (depth - 1) as nat) == Ok::<(Formula, int), ExpressionError>(
            (p, at + 1 + render(p).len()),
        ),
        parse_expression(s, at + 6 + render(p).len(), (depth - 2) as nat) == Ok::<
            (Formula, int),
            ExpressionError,
        >((q, at + 6 + render(p).len() + render(q).len())),
    ensures
        parse_expression(s, at, depth) == Ok::<(Formula, int), ExpressionError>(
            (Formula::And(Box::new(p), Box::new(q)), at + render(p).len() + render(q).len() + 7),
        ),
{
    reveal_strlit(")and(");
    reveal_strlit("and");
    let sign = ")and("@;
    let middle = at + 1 + render(p).len();
    let close = middle + 5 + render(q).len();
    let whole = Formula::And(Box::new(p), Box::new(q));
    lemma_char(s, middle, sign, 0);
    lemma_char(s, middle, sign, 1);
    lemma_char(s, middle, sign, 2);
    lemma_char(s, middle, sign, 3);
    lemma_char(s, middle, sign, 4);
    lemma_bracketed(s, at, depth, p, middle);
    assert(parse_comparison(s, at, depth) == Ok::<(Formula, int), ExpressionError>(
        (p, middle + 1),
    ));
    lemma_word(s, middle + 1, 3);
    assert(next_word(s, middle + 1) == ("and"@, middle + 4));
    lemma_bracketed(s, middle + 4, (depth - 1) as nat, q, close);
    lemma_primary_is_expression(s, middle + 4, (depth - 1) as nat, q, close + 1);
    assert(parse_conjunction(s, at, depth) == Ok::<(Formula, int), ExpressionError>(
        (whole, close + 1),
    ));
    lemma_ends_here(s, close + 1);
}

/// `(p)or(q)` reads back where `p` and `q` do.
proof fn lemma_reads_or(s: Seq<char>, at: int, p: Formula, q: Formula, depth: nat)
    requires
        depth > 1,
        holds_infix(s, at, render(p), ")or("@, render(q)),
        closed_after(s, at + render(p).len() + render(q).len() + 6),
        parse_expression(s, at + 1, (depth - 1) as nat) == Ok::<(Formula, int), ExpressionError>(
            (p, at + 1 + render(p).len()),
        ),
        parse_expression(s, at + 5 + render(p).len(), (depth - 2) as nat) == Ok::<
            (Formula, int),
            ExpressionError,
        >((q, at + 5 + render(p).len() + render(q).len())),
    ensures
        parse_expression(s, at, depth) == Ok::<(Formula, int), ExpressionError>(
            (Formula::Or(Box::new(p), Box::new(q)), at + render(p).len() + render(q).len() + 6),
        ),
{
    reveal_strlit(")or(");
    reveal_strlit("or");
    reveal_strlit("and");
    let sign = ")or("@;
    let middle = at + 1 + render(p).len();
    let close = middle + 4 + render(q).len();
    lemma_char(s, middle, sign, 0);
    lemma_char(s, middle, sign, 1);
    lemma_char(s, middle, sign, 2);
    lemma_char(s, middle, sign, 3);
    lemma_bracketed(s, at, depth, p, middle);
    assert(parse_comparison(s, at, depth) == Ok::<(Formula, int), ExpressionError>(
        (p, middle + 1),
    ));
    lemma_word(s, middle + 1, 2);
    assert(next_word(s, middle + 1) == ("or"@, middle + 3));
    assert(parse_conjunction(s, at, depth) == Ok::<(Formula, int), ExpressionError>(
        (p, middle + 1),
    ));
    lemma_bracketed(s, middle + 3, (depth - 1) as nat, q, close);
    lemma_primary_is_expression(s, middle + 3, (depth - 1) as nat, q, close + 1);
}

/// Where the parts of `$not(p)` stand.
proof fn lemma_layout_not(s: Seq<char>, at: int, p: Formula)
    requires
        holds(s, at, render(Formula::Not(Box::new(p)))),
    ensures
        holds_call(s, at, "$not("@, render(p), ')'),
        "$not("@.len() == 5,
        render(Formula::Not(Box::new(p))).len() == render(p).len() + 6,
        holds(s, at + 5, render(p)),
        closed_after(s, at + 5 + render(p).len()),
{
    reveal_strlit("$not(");
    lemma_holds_call(s, at, "$not("@, render(p), ')');
}

/// Where the parts of `$contains(a,b)` stand.
proof fn lemma_layout_contains(s: Seq<char>, at: int, a: Formula, b: Formula)
    requires
        holds(s, at, render(Formula::Contains(Box::new(a), Box::new(b)))),
    ensures
        holds_call(s, at, "$contains("@, render(a), ','),
        holds_call(s, at + 11 + render(a).len(), Seq::empty(), render(b), ')'),
        render(Formula::Contains(Box::new(a), Box::new(b))).len() == render(a).len() + render(
            b,
        ).len() + 12,
        holds(s, at + 10, render(a)),
        closed_after(s, at + 10 + render(a).len()),
        holds(s, at + 11 + render(a).len(), render(b)),
        closed_after(s, at + 11 + render(a).len() + render(b).len()),
{
    reveal_strlit("$contains(");
    let head = "$contains("@;
    let first = render(a);
    let second = render(b);
    let whole = render(Formula::Contains(Box::new(a), Box::new(b)));
    assert(whole =~= (head + first + seq![',']) + (second + seq![')']));
    assert(second + seq![')'] =~= Seq::<char>::empty() + second + seq![')']);
    lemma_split(s, at, head + first + seq![','], second + seq![')']);
    lemma_holds_call(s, at, head, first, ',');
    lemma_holds_call(s, at + 11 + first.len(), Seq::empty(), second, ')');
}

/// Where the parts of `(a)sign(b)` stand, for a sign that begins with a closing
/// bracket.
proof fn lemma_layout_infix(s: Seq<char>, at: int, a: Formula, sign: Seq<char>, b: Formula)
    requires
        holds(s, at, seq!['('] + render(a) + sign + render(b) + seq![')']),
        sign.len() > 0,
        sign[0] == ')',
    ensures
        holds_infix(s, at, render(a), sign, render(b)),
        holds(s, at + 1, render(a)),
        closed_after(s, at + 1 + render(a).len()),
        holds(s, at + 1 + render(a).len() + sign.len(), render(b)),
        closed_after(s, at + 1 + render(a).len() + sign.len() + render(b).len()),
{
    lemma_holds_infix(s, at, render(a), sign, render(b));
    lemma_char(s, at + 1 + render(a).len(), sign, 0);
}

/// The grammar reads the canonical text of an expression back as that expression,
/// wherever the text stands, as long as the expression may end after it and the
/// nesting is within the depth.
pub proof fn lemma_reads_back(s: Seq<char>, at: int, formula: Formula, depth: nat)
    requires
        holds(s, at, render(formula)),
        closed_after(s, at + render(formula).len()),
        writable(formula),
        nesting(formula) <= depth,
    ensures
        parse_expression(s, at, depth) == Ok::<(Formula, int), ExpressionError>(
            (formula, at + render(formula).len()),
        ),
    decreases formula,
{
    match formula {
        Formula::Input => {
            lemma_reads_input(s, at, depth);
        },
        Formula::Text(literal) => {
            lemma_reads_text(s, at, literal, depth);
        },
        Formula::Bool(value) => {
            lemma_reads_bool(s, at, value, depth);
        },
        Formula::Not(p) => {
            lemma_layout_not(s, at, *p);
            lemma_reads_back(s, at + 5, *p, (depth - 1) as nat);
            lemma_reads_not(s, at, *p, depth);
        },
        Formula::Contains(a, b) => {
            lemma_layout_contains(s, at, *a, *b);
            lemma_reads_back(s, at + 10, *a, (depth - 1) as nat);
            lemma_reads_back(s, at + 11 + render(*a).len(), *b, (depth - 1) as nat);
            lemma_reads_contains(s, at, *a, *b, depth);
        },
        Formula::Equals(a, b) => {
            lemma_sign_lengths();
            lemma_layout_infix(s, at, *a, ")=("@, *b);
            lemma_reads_back(s, at + 1, *a, (depth - 1) as nat);
            lemma_reads_back(s, at + 4 + render(*a).len(), *b, (depth - 1) as nat);
            lemma_reads_equals(s, at, *a, *b, depth);
        },
        Formula::And(p, q) => {
            lemma_sign_lengths();
            lemma_layout_infix(s, at, *p, ")and("@, *q);
            lemma_reads_back(s, at + 1, *p, (depth - 1) as nat);
            lemma_reads_back(s, at + 6 + render(*p).len(), *q, (depth - 2) as nat);
            lemma_reads_and(s, at, *p, *q, depth);
        },
        Formula::Or(p, q) => {
            lemma_sign_lengths();
            lemma_layout_infix(s, at, *p, ")or("@, *q);
            lemma_reads_back(s, at + 1, *p, (depth - 1) as nat);
            lemma_reads_back(s, at + 5 + render(*p).len(), *q, (depth - 2) as nat);
            lemma_reads_or(s, at, *p, *q, depth);
        },
    }
}

/// The signs between two bracketed operands begin with a closing bracket.
proof fn lemma_sign_lengths()
    ensures
        ")=("@.len() == 3 && ")=("@[0] == ')',
        ")and("@.len() == 5 && ")and("@[0] == ')',
        ")or("@.len() == 4 && ")or("@[0] == ')',
{
    reveal_strlit(")=(");
    reveal_strlit(")and(");
    reveal_strlit(")or(");
}

/// Compiling the canonical text of an expression gives that expression back.
pub proof fn canonical_text_reads_back(formula: Formula)
    requires
        writable(formula),
        nesting(formula) <= MAX_DEPTH,
    ensures
        parse(render(formula)) == Ok::<Formula, ExpressionError>(formula),
{
    let text = render(formula);
    assert(text.subrange(0, text.len() as int) =~= text);
    lemma_reads_back(text, 0, formula, MAX_DEPTH as nat);
    lemma_ends_here(text, text.len() as int);
}

fn push_text(out: &mut Vec<char>, text: &str)
    ensures
        final(out)@ == old(out)@ + text@,
{
    for c in it: text.chars()
        invariant
            it.seq() == text@,
            out@ == old(out)@ + it.seq().take(it.index() as int),
    {
        out.push(c);
        assert(out@ =~= old(out)@ + it.seq().take(it.index() + 1));
    }
    assert(text@.take(text@.len() as int) =~= text@);
}

fn push_chars(out: &mut Vec<char>, chars: &Vec<char>)
    ensures
        final(out)@ == old(out)@ + chars@,
{
    let mut i: usize = 0;
    while i < chars.len()
        invariant
            i <= chars.len(),
            out@ == old(out)@ + chars@.take(i as int),
        decreases chars.len() - i,
    {
        out.push(chars[i]);
        assert(out@ =~= old(out)@ + chars@.take(i + 1));
        i += 1;
    }
    assert(chars@.take(chars@.len() as int) =~= chars@);
}

/// Writes the canonical text of an expression after what is written.
pub fn write_canonical(expr: &Expr, out: &mut Vec<char>)
    ensures
        final(out)@ == old(out)@ + render(expr@),
    decreases expr,
{
    match expr {
        Expr::Input => {
            out.push('$');
            assert(out@ =~= old(out)@ + seq!['$']);
        },
        Expr::Text(text) => {
            out.push('"');
            push_chars(out, text);
            out.push('"');
            assert(out@ =~= old(out)@ + (seq!['"'] + text@ + seq!['"']));
        },
        Expr::Bool(value) => {
            if *value {
                push_text(out, "true");
            } else {
                push_text(out, "false");
            }
        },
        Expr::Contains(a, b) => {
            push_text(out, "$contains(");
            write_canonical(a, out);
            out.push(',');
            write_canonical(b, out);
            out.push(')');
            assert(out@ =~= old(out)@ + ("$contains("@ + render(a@) + seq![','] + render(b@)
                + seq![')']));
        },
        Expr::Equals(a, b) => {
            out.push('(');
            write_canonical(a, out);
            push_text(out, ")=(");
            write_canonical(b, out);
            out.push(')');
            assert(out@ =~= old(out)@ + (seq!['('] + render(a@) + ")=("@ + render(b@) + seq![')']));
        },
        Expr::Not(p) => {
            push_text(out, "$not(");
            write_canonical(p, out);
            out.push(')');
            assert(out@ =~= old(out)@ + ("$not("@ + render(p@) + seq![')']));
        },
        Expr::And(p, q) => {
            out.push('(');
            write_canonical(p, out);
            push_text(out, ")and(");
            write_canonical(q, out);
            out.push(')');
            assert(out@ =~= old(out)@ + (seq!['('] + render(p@) + ")and("@ + render(q@)
                + seq![')']));
        },
        Expr::Or(p, q) => {
            out.push('(');
            write_canonical(p, out);
            push_text(out, ")or(");
            write_canonical(q, out);
            out.push(')');
            assert(out@ =~= old(out)@ + (seq!['('] + render(p@) + ")or("@ + render(q@) + seq![')']));
        },
    }
}

/// The canonical text of an expression.
pub fn canonical(expr: &Expr) -> (text: Vec<char>)
    ensures
        text@ == render(expr@),
{
    let mut text: Vec<char> = Vec::new();
    write_canonical(expr, &mut text);
    assert(Seq::<char>::empty() + render(expr@) =~= render(expr@));
    text
}

} // verus!
