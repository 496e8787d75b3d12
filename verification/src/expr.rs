//! Pass expressions: what they are and what they say of a text.
//!
//! An expression is either of text or of truth. Of text are `$`, the text under test,
//! and a string literal. Of truth are `true`, `false`, `$contains(a, b)`, `a = b`,
//! `$not(p)`, `p and q` and `p or q`, where `a` and `b` are of text and `p` and `q` of
//! truth. A pass expression must be of truth.

use vstd::prelude::*;

verus! {

/// A compiled expression.
#[derive(Debug, PartialEq, Eq)]
pub enum Expr {
    /// `$`: the text under test.
    Input,
    /// A string literal.
    Text(Vec<char>),
    /// `true` or `false`.
    Bool(bool),
    /// `$contains(a, b)`: whether `b` occurs in `a`.
    Contains(Box<Expr>, Box<Expr>),
    /// `a = b`: whether the two texts are the same.
    Equals(Box<Expr>, Box<Expr>),
    /// `$not(p)`.
    Not(Box<Expr>),
    /// `p and q`.
    And(Box<Expr>, Box<Expr>),
    /// `p or q`.
    Or(Box<Expr>, Box<Expr>),
}

/// An [`Expr`] as a mathematical value.
pub enum Formula {
    Input,
    Text(Seq<char>),
    Bool(bool),
    Contains(Box<Formula>, Box<Formula>),
    Equals(Box<Formula>, Box<Formula>),
    Not(Box<Formula>),
    And(Box<Formula>, Box<Formula>),
    Or(Box<Formula>, Box<Formula>),
}

/// The mathematical value of an expression.
pub open spec fn formula_of(expr: Expr) -> Formula
    decreases expr,
{
    match expr {
        Expr::Input => Formula::Input,
        Expr::Text(text) => Formula::Text(text@),
        Expr::Bool(value) => Formula::Bool(value),
        Expr::Contains(a, b) => Formula::Contains(
            Box::new(formula_of(*a)),
            Box::new(formula_of(*b)),
        ),
        Expr::Equals(a, b) => Formula::Equals(Box::new(formula_of(*a)), Box::new(formula_of(*b))),
        Expr::Not(p) => Formula::Not(Box::new(formula_of(*p))),
        Expr::And(p, q) => Formula::And(Box::new(formula_of(*p)), Box::new(formula_of(*q))),
        Expr::Or(p, q) => Formula::Or(Box::new(formula_of(*p)), Box::new(formula_of(*q))),
    }
}

impl View for Expr {
    type V = Formula;

    open spec fn view(&self) -> Formula {
        formula_of(*self)
    }
}

impl Clone for Expr {
    fn clone(&self) -> (copy: Self)
        ensures
            copy@ == self@,
        decreases self,
    {
        match self {
            Expr::Input => Expr::Input,
            Expr::Text(text) => Expr::Text(text.clone()),
            Expr::Bool(value) => Expr::Bool(*value),
            Expr::Contains(a, b) => Expr::Contains(Box::new((**a).clone()), Box::new((**b).clone())),
            Expr::Equals(a, b) => Expr::Equals(Box::new((**a).clone()), Box::new((**b).clone())),
            Expr::Not(p) => Expr::Not(Box::new((**p).clone())),
            Expr::And(p, q) => Expr::And(Box::new((**p).clone()), Box::new((**q).clone())),
            Expr::Or(p, q) => Expr::Or(Box::new((**p).clone()), Box::new((**q).clone())),
        }
    }
}

/// Why an expression says nothing of a text.
#[derive(Debug, Clone, Copy, PartialEq, Eq, Structural)]
pub enum EvaluationError {
    /// Truth was asked of an expression of text: the pass expression itself, or an
    /// operand of `$not`, `and` or `or`.
    NotBoolean,
    /// Text was asked of an expression of truth: an operand of `$contains` or `=`.
    NotText,
}

/// Whether `needle` stands in `text` from the offset `at` on.
pub open spec fn occurs_at(text: Seq<char>, needle: Seq<char>, at: int) -> bool {
    0 <= at && at + needle.len() <= text.len() && text.subrange(at, at + needle.len()) == needle
}

/// Whether `needle` stands somewhere in `text`.
pub open spec fn occurs_in(text: Seq<char>, needle: Seq<char>) -> bool {
    exists|at: int| occurs_at(text, needle, at)
}

/// The text that an expression stands for.
pub open spec fn text_of(formula: Formula, input: Seq<char>) -> Result<Seq<char>, EvaluationError> {
    match formula {
        Formula::Input => Ok(input),
        Formula::Text(text) => Ok(text),
        _ => Err(EvaluationError::NotText),
    }
}

/// What an expression says of the text under test. Operands are read from left to
/// right, and the first that fails decides.
pub open spec fn truth_of(formula: Formula, input: Seq<char>) -> Result<bool, EvaluationError>
    decreases formula,
{
    match formula {
        Formula::Input => Err(EvaluationError::NotBoolean),
        Formula::Text(_) => Err(EvaluationError::NotBoolean),
        Formula::Bool(value) => Ok(value),
        Formula::Contains(a, b) => match text_of(*a, input) {
            Err(error) => Err(error),
            Ok(text) => match text_of(*b, input) {
                Err(error) => Err(error),
                Ok(needle) => Ok(occurs_in(text, needle)),
            },
        },
        Formula::Equals(a, b) => match text_of(*a, input) {
            Err(error) => Err(error),
            Ok(left) => match text_of(*b, input) {
                Err(error) => Err(error),
                Ok(right) => Ok(left == right),
            },
        },
        Formula::Not(p) => match truth_of(*p, input) {
            Err(error) => Err(error),
            Ok(value) => Ok(!value),
        },
        Formula::And(p, q) => match truth_of(*p, input) {
            Err(error) => Err(error),
            Ok(left) => match truth_of(*q, input) {
                Err(error) => Err(error),
                Ok(right) => Ok(left && right),
            },
        },
        Formula::Or(p, q) => match truth_of(*p, input) {
            Err(error) => Err(error),
            Ok(left) => match truth_of(*q, input) {
                Err(error) => Err(error),
                Ok(right) => Ok(left || right),
            },
        },
    }
}

/// Whether `needle` stands in `text` at the offset `at`.
pub fn stands_at(text: &[char], needle: &[char], at: usize) -> (r: bool)
    ensures
        r == occurs_at(text@, needle@, at as int),
{
    let length = text.len();
    if needle.len() > length || at > length - needle.len() {
        return false;
    }
    let mut i: usize = 0;
    while i < needle.len()
        invariant
            i <= needle.len(),
            length == text@.len(),
            at + needle@.len() <= text@.len(),
            forall|k: int| 0 <= k < i ==> text@[at + k] == needle@[k],
        decreases needle.len() - i,
    {
        if text[at + i] != needle[i] {
            return false;
        }
        i += 1;
    }
    assert(text@.subrange(at as int, at + needle@.len()) =~= needle@);
    true
}

/// Whether `needle` stands somewhere in `text`.
pub fn contains(text: &[char], needle: &[char]) -> (r: bool)
    ensures
        r == occurs_in(text@, needle@),
{
    if needle.len() > text.len() {
        return false;
    }
    let last = text.len() - needle.len();
    let mut at: usize = 0;
    loop
        invariant
            at <= last,
            last == text@.len() - needle@.len(),
            forall|k: int| 0 <= k < at ==> !occurs_at(text@, needle@, k),
        decreases last - at,
    {
        if stands_at(text, needle, at) {
            return true;
        }
        if at == last {
            return false;
        }
        at += 1;
    }
}

/// Whether the two texts are the same.
pub fn same_text(left: &[char], right: &[char]) -> (r: bool)
    ensures
        r == (left@ == right@),
{
    if left.len() != right.len() {
        return false;
    }
    let found = stands_at(left, right, 0);
    assert(left@.subrange(0, left@.len() as int) =~= left@);
    found
}

impl Expr {
    /// The text that the expression stands for.
    pub fn text<'a>(&'a self, input: &'a [char]) -> (r: Result<&'a [char], EvaluationError>)
        ensures
            match r {
                Ok(text) => text_of(self@, input@) == Ok::<Seq<char>, EvaluationError>(text@),
                Err(error) => text_of(self@, input@) == Err::<Seq<char>, EvaluationError>(error),
            },
    {
        match self {
            Expr::Input => Ok(input),
            Expr::Text(text) => Ok(text.as_slice()),
            _ => Err(EvaluationError::NotText),
        }
    }

    /// What the expression says of the text under test.
    pub fn truth(&self, input: &[char]) -> (r: Result<bool, EvaluationError>)
        ensures
            r == truth_of(self@, input@),
        decreases self,
    {
        match self {
            Expr::Input => Err(EvaluationError::NotBoolean),
            Expr::Text(_) => Err(EvaluationError::NotBoolean),
            Expr::Bool(value) => Ok(*value),
            Expr::Contains(a, b) => match a.text(input) {
                Err(error) => Err(error),
                Ok(text) => match b.text(input) {
                    Err(error) => Err(error),
                    Ok(needle) => Ok(contains(text, needle)),
                },
            },
            Expr::Equals(a, b) => match a.text(input) {
                Err(error) => Err(error),
                Ok(left) => match b.text(input) {
                    Err(error) => Err(error),
                    Ok(right) => Ok(same_text(left, right)),
                },
            },
            Expr::Not(p) => match p.truth(input) {
                Err(error) => Err(error),
                Ok(value) => Ok(!value),
            },
            Expr::And(p, q) => match p.truth(input) {
                Err(error) => Err(error),
                Ok(left) => match q.truth(input) {
                    Err(error) => Err(error),
                    Ok(right) => Ok(left && right),
                },
            },
            Expr::Or(p, q) => match p.truth(input) {
                Err(error) => Err(error),
                Ok(left) => match q.truth(input) {
                    Err(error) => Err(error),
                    Ok(right) => Ok(left || right),
                },
            },
        }
    }
}

} // verus!
